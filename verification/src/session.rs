//! The session engine: one interpreter loop's state — the image, the prompt
//! and the history of accepted commands — plus script replay and the `dump`
//! script.

use vstd::prelude::*;
use crate::image::Image;
use crate::image::grid_wf;
use crate::command::Parsed;
use crate::command::spec_cmd_of;
use crate::command::spec_apply;
use crate::command::spec_warn;
use crate::command::is_help_toks;
use crate::command::is_dump_toks;
use crate::command::is_quit_toks;
use crate::command::is_usage_toks;
use crate::command::parse;
use crate::command::execute;
use crate::draw::Warn;
use crate::text::cooked_tokens;
use crate::text::spec_trim;
use crate::text::spec_split;
use crate::text::views;
use crate::text::lower_vec;
use crate::text::subst_vec;
use crate::text::tokenize_vec;
use crate::text::trim_vec;
use crate::text::split_semi;
use crate::text::spec_lower;
use crate::text::spec_subst;
use crate::text::spec_replace2;
use crate::text::spec_tokens;
use crate::text::rep_true;
use crate::text::rep_false;
use crate::text::lower_byte;
use crate::text::is_ws;
use crate::text::all_ws;
use crate::text::no_semi;
use crate::text::ws_prefix_len;
use crate::text::ws_suffix_len;
use crate::text::lemma_lower_concat;
use crate::text::lemma_lower_ws_id;
use crate::text::lemma_replace2_concat;
use crate::text::lemma_replace2_ws_id;
use crate::text::lemma_tokens_ws_prefix;
use crate::text::lemma_tokens_ws_suffix;
use crate::text::lemma_trim_front_shape;
use crate::text::lemma_trim_back_shape;
use crate::text::lemma_first_token_starts;

verus! {

/// What one submitted line amounted to, for the caller to report.
#[derive(Clone, Copy, Debug, PartialEq, Eq, Structural)]
pub enum ReplyKind {
    Done,
    Help,
    Dump,
    Quit,
    Empty,
    Usage,
    Unrecognized,
}

/// The interpreter's answer to one line: its classification, the command
/// name for usage or unrecognized reports, the recoverable warning the
/// command raised, and whether the grid changed.
pub struct Reply {
    pub kind: ReplyKind,
    pub name: Vec<u8>,
    pub warn: Option<Warn>,
    pub changed: bool,
}

/// The grid after one line: the command's effect if the line parses to a
/// command, the unchanged grid otherwise.
pub open spec fn spec_step(g: Seq<Seq<bool>>, line: Seq<u8>) -> Seq<Seq<bool>> {
    match spec_cmd_of(cooked_tokens(line)) {
        Some(cmd) => spec_apply(g, cmd),
        None => g,
    }
}

/// Whether a line is accepted, and so eligible for the history.
pub open spec fn spec_accepted(line: Seq<u8>) -> bool {
    spec_cmd_of(cooked_tokens(line)) is Some
}

/// The grid after a sequence of lines, applied in order.
pub open spec fn run_lines(g: Seq<Seq<bool>>, lines: Seq<Seq<u8>>) -> Seq<Seq<bool>>
    decreases lines.len(),
{
    if lines.len() == 0 {
        g
    } else {
        run_lines(spec_step(g, lines[0]), lines.skip(1))
    }
}

/// The grid after replaying a script: the text split on `;`, each segment
/// one line.
pub open spec fn spec_run_script(g: Seq<Seq<bool>>, text: Seq<u8>) -> Seq<Seq<bool>> {
    run_lines(g, spec_split(text))
}

/// The `dump` script: every history line trimmed, suffixed with `;` and a
/// newline.
pub open spec fn spec_dump(h: Seq<Seq<u8>>) -> Seq<u8>
    decreases h.len(),
{
    if h.len() == 0 {
        Seq::empty()
    } else {
        spec_trim(h[0]) + seq![59u8, 10u8] + spec_dump(h.skip(1))
    }
}

/// How one line is classified.
pub open spec fn spec_reply_kind(line: Seq<u8>) -> ReplyKind {
    let toks = cooked_tokens(line);
    if toks.len() == 0 {
        ReplyKind::Empty
    } else if is_help_toks(toks) {
        ReplyKind::Help
    } else if is_dump_toks(toks) {
        ReplyKind::Dump
    } else if is_quit_toks(toks) {
        ReplyKind::Quit
    } else if spec_cmd_of(toks) is Some {
        ReplyKind::Done
    } else if is_usage_toks(toks) {
        ReplyKind::Usage
    } else {
        ReplyKind::Unrecognized
    }
}

/// One interactive session: the image it owns, the prompt it shows, and the
/// history of accepted command lines.
pub struct Cli {
    pub prompt_string: String,
    image: Image,
    history: Vec<Vec<u8>>,
}

impl Cli {
    pub closed spec fn grid(&self) -> Seq<Seq<bool>> {
        self.image@
    }

    pub closed spec fn hist(&self) -> Seq<Seq<u8>> {
        views(self.history@)
    }

    pub closed spec fn prompt(&self) -> Seq<char> {
        self.prompt_string@
    }

    /// Every history entry was accepted, and the grid is well formed.
    pub open spec fn wf(&self) -> bool {
        &&& grid_wf(self.grid())
        &&& forall|i: int| 0 <= i < self.hist().len() ==> spec_accepted(#[trigger] self.hist()[i])
    }

    /// Start a session over an image, with an empty history.
    pub fn new(prompt_string: String, image: Image) -> (cli: Cli)
        requires
            image.wf(),
        ensures
            cli.wf(),
            cli.grid() == image@,
            cli.hist() == Seq::<Seq<u8>>::empty(),
            cli.prompt() == prompt_string@,
    {
        let cli = Cli { prompt_string, image, history: Vec::new() };
        proof {
            assert(cli.hist() =~= Seq::<Seq<u8>>::empty());
        }
        cli
    }

    /// The image, for rendering.
    pub fn image_ref(&self) -> (r: &Image)
        ensures
            r@ == self.grid(),
    {
        &self.image
    }

    /// Tokenize, parse and execute one line against an image, without
    /// recording it.
    fn run_line(img: &mut Image, input: &Vec<u8>) -> (r: Reply)
        requires
            old(img).wf(),
        ensures
            final(img).wf(),
            final(img)@ == spec_step(old(img)@, input@),
            r.kind == spec_reply_kind(input@),
            r.warn == (match spec_cmd_of(cooked_tokens(input@)) {
                Some(cmd) => spec_warn(cmd),
                None => None::<Warn>,
            }),
            (r.kind == ReplyKind::Usage || r.kind == ReplyKind::Unrecognized)
                ==> r.name@ == cooked_tokens(input@)[0],
            r.changed == false,
    {
        proof {
            crate::command::lemma_names_distinct();
        }
        let lowered = lower_vec(input);
        let cooked = subst_vec(&lowered);
        let toks = tokenize_vec(&cooked);
        let p = parse(&toks);
        match p {
            Parsed::Op { cmd } => {
                let w = execute(img, cmd);
                Reply { kind: ReplyKind::Done, name: Vec::new(), warn: w, changed: false }
            },
            Parsed::Help => Reply {
                kind: ReplyKind::Help,
                name: Vec::new(),
                warn: None,
                changed: false,
            },
            Parsed::Dump => Reply {
                kind: ReplyKind::Dump,
                name: Vec::new(),
                warn: None,
                changed: false,
            },
            Parsed::Quit => Reply {
                kind: ReplyKind::Quit,
                name: Vec::new(),
                warn: None,
                changed: false,
            },
            Parsed::Empty => Reply {
                kind: ReplyKind::Empty,
                name: Vec::new(),
                warn: None,
                changed: false,
            },
            Parsed::Usage { name } => Reply {
                kind: ReplyKind::Usage,
                name,
                warn: None,
                changed: false,
            },
            Parsed::Unrecognized { name } => Reply {
                kind: ReplyKind::Unrecognized,
                name,
                warn: None,
                changed: false,
            },
        }
    }

    /// Interpret one command line: execute it, record it in the history if
    /// it was accepted, and report what happened and whether the grid
    /// changed.
    pub fn parse_command(&mut self, input: Vec<u8>) -> (r: Reply)
        requires
            old(self).wf(),
        ensures
            final(self).wf(),
            final(self).grid() == spec_step(old(self).grid(), input@),
            final(self).hist() == (if spec_accepted(input@) {
                old(self).hist().push(input@)
            } else {
                old(self).hist()
            }),
            final(self).prompt() == old(self).prompt(),
            r.kind == spec_reply_kind(input@),
            r.warn == (match spec_cmd_of(cooked_tokens(input@)) {
                Some(cmd) => spec_warn(cmd),
                None => None::<Warn>,
            }),
            (r.kind == ReplyKind::Usage || r.kind == ReplyKind::Unrecognized)
                ==> r.name@ == cooked_tokens(input@)[0],
            r.changed == (final(self).grid() != old(self).grid()),
    {
        proof {
            crate::command::lemma_names_distinct();
        }
        let snapshot = self.image.duplicate();
        let mut r = Cli::run_line(&mut self.image, &input);
        let changed = !self.image.same_grid(&snapshot);
        r.changed = changed;
        let accepted = match r.kind {
            ReplyKind::Done => true,
            _ => false,
        };
        if accepted {
            let ghost h0 = views(self.history@);
            self.history.push(input);
            proof {
                assert(views(self.history@) =~= h0.push(self.history@.last()@));
            }
        }
        proof {
            assert forall|i: int| 0 <= i < self.hist().len()
                implies spec_accepted(#[trigger] self.hist()[i]) by {
                if i < old(self).hist().len() {
                    assert(self.hist()[i] == old(self).hist()[i]);
                } else {
                    assert(self.hist()[i] == input@);
                }
            };
        }
        r
    }

    /// Emit the history as a re-runnable script: each accepted line,
    /// trimmed, suffixed with `;` and a newline.
    #[verifier::loop_isolation(false)]
    pub fn dump_script(&self) -> (s: Vec<u8>)
        ensures
            s@ == spec_dump(self.hist()),
    {
        let mut s: Vec<u8> = Vec::new();
        let mut i: usize = 0;
        let ghost h = views(self.history@);
        proof {
            assert(h.skip(0) =~= h);
            assert(s@ + spec_dump(h) =~= spec_dump(h));
        }
        while i < self.history.len()
            invariant
                0 <= i <= self.history@.len(),
                h == views(self.history@),
                spec_dump(h) == s@ + spec_dump(h.skip(i as int)),
            decreases self.history@.len() - i,
        {
            let t = trim_vec(&self.history[i]);
            let mut k: usize = 0;
            let ghost s0 = s@;
            while k < t.len()
                invariant
                    0 <= k <= t@.len(),
                    s@ == s0 + t@.take(k as int),
                decreases t@.len() - k,
            {
                s.push(t[k]);
                proof {
                    assert(s@ =~= s0 + t@.take(k as int + 1));
                }
                k = k + 1;
            }
            s.push(59);
            s.push(10);
            proof {
                assert(t@.take(t@.len() as int) =~= t@);
                assert(h.skip(i as int)[0] == h[i as int]);
                assert(h.skip(i as int).skip(1) =~= h.skip(i as int + 1));
                assert(s@ =~= s0 + spec_trim(h[i as int]) + seq![59u8, 10u8]);
                assert(spec_dump(h) =~= s@ + spec_dump(h.skip(i as int + 1)));
            }
            i = i + 1;
        }
        proof {
            assert(h.skip(h.len() as int) =~= Seq::<Seq<u8>>::empty());
            assert(s@ =~= spec_dump(h));
        }
        s
    }

    /// Replay a script: split it on `;` and run every segment in order with
    /// a disposable history, continuing past failures. The replies report
    /// what each segment did.
    #[verifier::loop_isolation(false)]
    pub fn parse_script(&mut self, text: &Vec<u8>) -> (rs: Vec<Reply>)
        requires
            old(self).wf(),
        ensures
            final(self).wf(),
            final(self).grid() == spec_run_script(old(self).grid(), text@),
            final(self).hist() == old(self).hist(),
            final(self).prompt() == old(self).prompt(),
            rs@.len() == spec_split(text@).len(),
            forall|i: int| 0 <= i < rs@.len()
                ==> (#[trigger] rs@[i]).kind == spec_reply_kind(spec_split(text@)[i]),
        {
        let ghost g0 = self.image@;
        let ghost segsv = spec_split(text@);
        let segs = split_semi(text);
        let mut rs: Vec<Reply> = Vec::new();
        let mut i: usize = 0;
        proof {
            assert(segsv.skip(0) =~= segsv);
        }
        while i < segs.len()
            invariant
                0 <= i <= segs@.len(),
                views(segs@) == segsv,
                segsv.len() == segs@.len(),
                self.image.wf(),
                self.history@ == old(self).history@,
                self.prompt_string@ == old(self).prompt_string@,
                run_lines(g0, segsv) == run_lines(self.image@, segsv.skip(i as int)),
                rs@.len() == i as int,
                forall|t: int| 0 <= t < i as int
                    ==> (#[trigger] rs@[t]).kind == spec_reply_kind(segsv[t]),
            decreases segs@.len() - i,
        {
            proof {
                assert(segsv[i as int] == segs@[i as int]@);
                assert(segsv.skip(i as int)[0] == segsv[i as int]);
                assert(segsv.skip(i as int).skip(1) =~= segsv.skip(i as int + 1));
            }
            let r = Cli::run_line(&mut self.image, &segs[i]);
            rs.push(r);
            i = i + 1;
        }
        proof {
            assert(segsv.skip(segsv.len() as int) =~= Seq::<Seq<u8>>::empty());
            assert(views(self.history@) =~= views(old(self).history@));
            assert forall|i: int| 0 <= i < self.hist().len()
                implies spec_accepted(#[trigger] self.hist()[i]) by {
                assert(self.hist()[i] == old(self).hist()[i]);
            };
        }
        rs
    }
}


/// An accepted line never contains a semicolon: its cooked tokens are
/// command names, integers or booleans, the tokens cover every
/// non-whitespace byte, and the cooking pipeline keeps every input byte.
pub proof fn lemma_accepted_no_semi(line: Seq<u8>)
    requires
        spec_accepted(line),
    ensures
        no_semi(line),
{
    let lo = spec_lower(line);
    let p1 = spec_replace2(lo, 116, rep_true());
    let p2 = spec_replace2(p1, 102, rep_false());
    crate::command::lemma_cmd_tokens_no_semi(cooked_tokens(line));
    crate::text::lemma_tokens_cover_semi(p2);
    crate::text::lemma_replace2_preserves_semi(p1, 102, rep_false());
    crate::text::lemma_replace2_preserves_semi(lo, 116, rep_true());
    crate::text::lemma_lower_preserves_semi(line);
}

/// A line that is not accepted — help, dump, quit, an empty line, a usage
/// error or an unrecognized name — leaves the grid unchanged, so a
/// session's final grid is the fold of its accepted lines alone.
pub proof fn lemma_unaccepted_step_id(g: Seq<Seq<bool>>, line: Seq<u8>)
    requires
        !spec_accepted(line),
    ensures
        spec_step(g, line) == g,
{
}

proof fn lemma_cooked_empty()
    ensures
        cooked_tokens(Seq::<u8>::empty()).len() == 0,
{
    assert(spec_lower(Seq::<u8>::empty()) =~= Seq::<u8>::empty());
    assert(spec_subst(Seq::<u8>::empty()) =~= Seq::<u8>::empty());
}

/// The cooked tokens of a line are those of its non-whitespace core, as
/// long as the core does not begin with a shorthand letter right after a
/// space.
proof fn lemma_cooked_decompose(f: Seq<u8>, m: Seq<u8>, b: Seq<u8>)
    requires
        all_ws(f),
        all_ws(b),
        m.len() > 0 ==> !is_ws(m[0]) && !is_ws(m.last()),
        !(f.len() > 0 && m.len() > 0 && f.last() == 32 && (lower_byte(m[0]) == 116
            || lower_byte(m[0]) == 102)),
    ensures
        cooked_tokens(f + m + b) == cooked_tokens(m),
{
    if m.len() == 0 {
        let w = f + m + b;
        assert(all_ws(w));
        lemma_lower_ws_id(w);
        lemma_replace2_ws_id(w, 116, rep_true());
        lemma_replace2_ws_id(w, 102, rep_false());
        assert(w + Seq::<u8>::empty() =~= w);
        lemma_tokens_ws_suffix(Seq::empty(), w);
        assert(Seq::<u8>::empty() + w =~= w);
        lemma_cooked_empty();
        assert(m =~= Seq::<u8>::empty());
        assert(cooked_tokens(f + m + b) =~= cooked_tokens(m));
    } else {
        let lm = spec_lower(m);
        lemma_lower_concat(f + m, b);
        lemma_lower_concat(f, m);
        lemma_lower_ws_id(f);
        lemma_lower_ws_id(b);
        assert(spec_lower(f + m + b) =~= f + lm + b);
        assert(lm[0] == lower_byte(m[0]));
        assert(lm.last() == lower_byte(m.last()));
        assert(!is_ws(lm[0]));
        assert(!is_ws(lm.last()));
        // first substitution pass
        assert(f + lm + b =~= f + (lm + b));
        lemma_replace2_concat(f, lm + b, 116, rep_true());
        lemma_replace2_ws_id(f, 116, rep_true());
        lemma_replace2_concat(lm, b, 116, rep_true());
        lemma_replace2_ws_id(b, 116, rep_true());
        let p1 = spec_replace2(lm, 116, rep_true());
        assert(spec_replace2(f + lm + b, 116, rep_true()) =~= f + p1 + b);
        assert(p1.len() >= 1 && p1[0] == lm[0]);
        // second substitution pass
        assert(f + p1 + b =~= f + (p1 + b));
        lemma_replace2_concat(f, p1 + b, 102, rep_false());
        lemma_replace2_ws_id(f, 102, rep_false());
        lemma_replace2_concat(p1, b, 102, rep_false());
        lemma_replace2_ws_id(b, 102, rep_false());
        let p2 = spec_replace2(p1, 102, rep_false());
        assert(spec_subst(spec_lower(f + m + b)) =~= f + p2 + b);
        // tokens ignore the whitespace on either side
        assert(f + p2 + b =~= f + (p2 + b));
        lemma_tokens_ws_prefix(f, p2 + b);
        lemma_tokens_ws_suffix(p2, b);
        assert(cooked_tokens(f + m + b) == spec_tokens(p2));
        assert(spec_subst(spec_lower(m)) == p2);
    }
}

/// A line whose core begins with `t` or `f` right after a space turns into
/// a `true...` or `false...` first token, which no command name matches.
#[verifier::rlimit(100)]
proof fn lemma_leading_shorthand_rejected(f: Seq<u8>, m: Seq<u8>, b: Seq<u8>)
    requires
        all_ws(f),
        all_ws(b),
        m.len() > 0,
        !is_ws(m[0]),
        !is_ws(m.last()),
        f.len() > 0 && f.last() == 32,
        lower_byte(m[0]) == 116 || lower_byte(m[0]) == 102,
    ensures
        spec_cmd_of(cooked_tokens(f + m + b)) is None,
{
    let lm = spec_lower(m);
    lemma_lower_concat(f + m, b);
    lemma_lower_concat(f, m);
    lemma_lower_ws_id(f);
    lemma_lower_ws_id(b);
    assert(spec_lower(f + m + b) =~= f + lm + b);
    assert(lm[0] == lower_byte(m[0]));
    assert(!is_ws(lm[0]));
    let f2 = f.drop_last();
    assert(f =~= f2 + seq![32u8]);
    assert(all_ws(f2));
    let toks = cooked_tokens(f + m + b);
    if lower_byte(m[0]) == 116 {
        // the first pass rewrites the leading " t"
        let tail = seq![32u8] + lm + b;
        assert(f + lm + b =~= f2 + tail);
        lemma_replace2_concat(f2, tail, 116, rep_true());
        lemma_replace2_ws_id(f2, 116, rep_true());
        assert(tail[0] == 32 && tail[1] == lm[0]);
        assert(tail.skip(2) =~= lm.skip(1) + b);
        let r1 = spec_replace2(lm.skip(1) + b, 116, rep_true());
        assert(spec_replace2(tail, 116, rep_true()) == rep_true() + r1);
        let p1 = spec_replace2(f + lm + b, 116, rep_true());
        assert(p1 =~= f2 + (rep_true() + r1));
        // the second pass keeps the inserted " true" intact
        lemma_replace2_concat(f2, rep_true() + r1, 102, rep_false());
        lemma_replace2_ws_id(f2, 102, rep_false());
        let u0 = rep_true() + r1;
        assert(u0[0] == 32 && u0[1] == 116 && u0[2] == 114 && u0[3] == 117 && u0[4] == 101);
        assert(u0.skip(1).skip(1) =~= u0.skip(2));
        assert(u0.skip(2).skip(1) =~= u0.skip(3));
        assert(u0.skip(3).skip(1) =~= u0.skip(4));
        assert(u0.skip(4).skip(1) =~= u0.skip(5));
        assert(u0.skip(1)[0] == 116 && u0.skip(1)[1] == 114);
        assert(u0.skip(2)[0] == 114 && u0.skip(2)[1] == 117);
        assert(u0.skip(3)[0] == 117 && u0.skip(3)[1] == 101);
        assert(u0.skip(4)[0] == 101);
        let q5 = spec_replace2(u0.skip(5), 102, rep_false());
        assert(spec_replace2(u0.skip(4), 102, rep_false()) == seq![u0.skip(4)[0]] + q5);
        assert(spec_replace2(u0.skip(3), 102, rep_false())
            == seq![u0.skip(3)[0]] + spec_replace2(u0.skip(4), 102, rep_false()));
        assert(spec_replace2(u0.skip(2), 102, rep_false())
            == seq![u0.skip(2)[0]] + spec_replace2(u0.skip(3), 102, rep_false()));
        assert(spec_replace2(u0.skip(1), 102, rep_false())
            == seq![u0.skip(1)[0]] + spec_replace2(u0.skip(2), 102, rep_false()));
        assert(!(u0.len() >= 2 && u0[0] == 32 && u0[1] == 102));
        assert(spec_replace2(u0, 102, rep_false())
            == seq![u0[0]] + spec_replace2(u0.skip(1), 102, rep_false()));
        let p2full = spec_subst(spec_lower(f + m + b));
        assert(p2full =~= f2 + (seq![32u8, 116, 114, 117, 101] + q5));
        assert(p2full =~= (f2 + seq![32u8]) + (seq![116u8, 114, 117, 101] + q5));
        let wpre = f2 + seq![32u8];
        let body = seq![116u8, 114, 117, 101] + q5;
        assert(all_ws(wpre));
        assert(body[0] == 116 && body[1] == 114 && body[2] == 117 && body[3] == 101);
        lemma_first_token_starts(wpre, body, 4);
        assert(toks == spec_tokens(wpre + body));
        assert(toks[0][0] == 116);
        assert(crate::command::name_help()[0] == 104);
        assert(crate::command::name_h()[0] == 104);
        assert(crate::command::name_dump()[0] == 100);
        assert(crate::command::name_d()[0] == 100);
        assert(crate::command::name_write()[0] == 119);
        assert(crate::command::name_w()[0] == 119);
        assert(crate::command::name_fill()[0] == 102);
        assert(crate::command::name_f()[0] == 102);
        assert(crate::command::name_resize()[0] == 114);
        assert(crate::command::name_r()[0] == 114);
        assert(crate::command::name_clear()[0] == 99);
        assert(crate::command::name_c()[0] == 99);
        assert(crate::command::name_dr_full()[0] == 100);
        assert(crate::command::name_dr()[0] == 100);
        assert(crate::command::name_dro_full()[0] == 100);
        assert(crate::command::name_dro()[0] == 100);
        assert(crate::command::name_dl_full()[0] == 100);
        assert(crate::command::name_dl()[0] == 100);
        assert(crate::command::name_db_full()[0] == 100);
        assert(crate::command::name_db()[0] == 100);
        assert(crate::command::name_dc_full()[0] == 100);
        assert(crate::command::name_dc()[0] == 100);
        assert(crate::command::name_dco_full()[0] == 100);
        assert(crate::command::name_dco()[0] == 100);
        assert(crate::command::name_invert()[0] == 105);
        assert(crate::command::name_i()[0] == 105);
        assert(crate::command::name_quit()[0] == 113);
        assert(crate::command::name_q()[0] == 113);
        assert(spec_cmd_of(toks) is None);
    } else {
        // the first pass leaves the leading " f" alone
        assert(lm[0] == 102);
        assert(f + lm + b =~= f + (lm + b));
        lemma_replace2_concat(f, lm + b, 116, rep_true());
        lemma_replace2_ws_id(f, 116, rep_true());
        assert((lm + b)[0] == 102);
        assert((lm + b).skip(1) =~= lm.skip(1) + b);
        let r1 = spec_replace2(lm.skip(1) + b, 116, rep_true());
        assert(!((lm + b).len() >= 2 && (lm + b)[0] == 32));
        assert(spec_replace2(lm + b, 116, rep_true()) == seq![(lm + b)[0]] + r1);
        let p1 = spec_replace2(f + lm + b, 116, rep_true());
        assert(p1 =~= f2 + (seq![32u8, 102] + r1));
        // the second pass rewrites the leading " f"
        lemma_replace2_concat(f2, seq![32u8, 102] + r1, 102, rep_false());
        lemma_replace2_ws_id(f2, 102, rep_false());
        let tail2 = seq![32u8, 102] + r1;
        assert(tail2[0] == 32 && tail2[1] == 102);
        assert(tail2.skip(2) =~= r1);
        assert(spec_replace2(tail2, 102, rep_false())
            == rep_false() + spec_replace2(r1, 102, rep_false()));
        let q2 = spec_replace2(r1, 102, rep_false());
        let p2full = spec_subst(spec_lower(f + m + b));
        assert(p2full =~= f2 + (seq![32u8, 102, 97, 108, 115, 101] + q2));
        assert(p2full =~= (f2 + seq![32u8]) + (seq![102u8, 97, 108, 115, 101] + q2));
        let wpre = f2 + seq![32u8];
        let body = seq![102u8, 97, 108, 115, 101] + q2;
        assert(all_ws(wpre));
        assert(body[0] == 102 && body[1] == 97 && body[2] == 108 && body[3] == 115
            && body[4] == 101);
        lemma_first_token_starts(wpre, body, 5);
        assert(toks == spec_tokens(wpre + body));
        assert(toks[0][0] == 102 && toks[0][1] == 97 && toks[0].len() >= 5);
        assert(crate::command::name_help()[0] == 104);
        assert(crate::command::name_h()[0] == 104);
        assert(crate::command::name_dump()[0] == 100);
        assert(crate::command::name_d()[0] == 100);
        assert(crate::command::name_write()[0] == 119);
        assert(crate::command::name_w()[0] == 119);
        assert(crate::command::name_fill()[0] == 102);
        assert(crate::command::name_f()[0] == 102);
        assert(crate::command::name_resize()[0] == 114);
        assert(crate::command::name_r()[0] == 114);
        assert(crate::command::name_clear()[0] == 99);
        assert(crate::command::name_c()[0] == 99);
        assert(crate::command::name_dr_full()[0] == 100);
        assert(crate::command::name_dr()[0] == 100);
        assert(crate::command::name_dro_full()[0] == 100);
        assert(crate::command::name_dro()[0] == 100);
        assert(crate::command::name_dl_full()[0] == 100);
        assert(crate::command::name_dl()[0] == 100);
        assert(crate::command::name_db_full()[0] == 100);
        assert(crate::command::name_db()[0] == 100);
        assert(crate::command::name_dc_full()[0] == 100);
        assert(crate::command::name_dc()[0] == 100);
        assert(crate::command::name_dco_full()[0] == 100);
        assert(crate::command::name_dco()[0] == 100);
        assert(crate::command::name_invert()[0] == 105);
        assert(crate::command::name_i()[0] == 105);
        assert(crate::command::name_quit()[0] == 113);
        assert(crate::command::name_q()[0] == 113);
        assert(crate::command::name_fill()[1] == 105);
        assert(crate::command::name_f().len() == 1);
        assert(spec_cmd_of(toks) is None);
    }
}

/// An accepted line has the same cooked tokens as its trimmed form.
proof fn lemma_cooked_trim(s: Seq<u8>)
    requires
        spec_accepted(s),
    ensures
        cooked_tokens(spec_trim(s)) == cooked_tokens(s),
{
    lemma_trim_front_shape(s);
    let a = ws_prefix_len(s) as int;
    let u = s.skip(a);
    lemma_trim_back_shape(u);
    let bl = ws_suffix_len(u) as int;
    let m = u.take(u.len() - bl);
    let f = s.take(a);
    let b = u.skip(u.len() - bl);
    assert(spec_trim(s) == m);
    assert(s =~= f + m + b);
    assert(all_ws(f));
    assert forall|t: int| 0 <= t < b.len() implies is_ws(#[trigger] b[t]) by {
        assert(b[t] == u[u.len() - bl + t]);
    };
    if m.len() > 0 {
        assert(m[0] == u[0]);
        assert(!is_ws(u[0]));
        assert(m.last() == u[u.len() - bl - 1]);
        assert(!is_ws(m.last()));
    }
    if f.len() > 0 && m.len() > 0 && f.last() == 32 && (lower_byte(m[0]) == 116
        || lower_byte(m[0]) == 102) {
        lemma_leading_shorthand_rejected(f, m, b);
        assert(false);
    } else {
        lemma_cooked_decompose(f, m, b);
    }
}

/// A leading newline does not change the cooked tokens.
proof fn lemma_cooked_nl_prefix(u: Seq<u8>)
    ensures
        cooked_tokens(seq![10u8] + u) == cooked_tokens(u),
{
    let nl = seq![10u8];
    assert(all_ws(nl));
    lemma_lower_concat(nl, u);
    lemma_lower_ws_id(nl);
    assert(spec_lower(nl + u) =~= nl + spec_lower(u));
    lemma_replace2_concat(nl, spec_lower(u), 116, rep_true());
    lemma_replace2_ws_id(nl, 116, rep_true());
    let p1 = spec_replace2(spec_lower(u), 116, rep_true());
    assert(spec_replace2(nl + spec_lower(u), 116, rep_true()) =~= nl + p1);
    lemma_replace2_concat(nl, p1, 102, rep_false());
    lemma_replace2_ws_id(nl, 102, rep_false());
    let p2 = spec_replace2(p1, 102, rep_false());
    assert(spec_subst(spec_lower(nl + u)) =~= nl + p2);
    lemma_tokens_ws_prefix(nl, p2);
}

proof fn lemma_run_dump_aux(g: Seq<Seq<bool>>, pre: Seq<u8>, h: Seq<Seq<u8>>)
    requires
        pre.len() == 0 || pre == seq![10u8],
        forall|i: int| 0 <= i < h.len() ==> spec_accepted(#[trigger] h[i]),
        forall|i: int| 0 <= i < h.len() ==> no_semi(#[trigger] h[i]),
    ensures
        run_lines(g, spec_split(pre + spec_dump(h))) == run_lines(g, h),
    decreases h.len(),
{
    assert(all_ws(pre));
    if h.len() == 0 {
        assert(pre + spec_dump(h) =~= pre);
        assert(no_semi(pre));
        crate::text::lemma_find_semi_at(pre, pre.len() as int);
        assert(spec_split(pre) == seq![pre]);
        assert(seq![pre].skip(1) =~= Seq::<Seq<u8>>::empty());
        if pre.len() == 0 {
            lemma_cooked_empty();
        } else {
            assert(pre =~= seq![10u8] + Seq::<u8>::empty());
            lemma_cooked_nl_prefix(Seq::empty());
            lemma_cooked_empty();
        }
        assert(spec_step(g, pre) == g);
        assert(seq![pre].skip(1).len() == 0);
        assert(run_lines(spec_step(g, pre), seq![pre].skip(1)) == spec_step(g, pre));
        assert(run_lines(g, seq![pre]) == g);
    } else {
        let s0 = h[0];
        let rest = h.skip(1);
        let tr = spec_trim(s0);
        let text = pre + spec_dump(h);
        assert(spec_dump(h) == tr + seq![59u8, 10u8] + spec_dump(rest));
        // the trimmed line is a subrange of the original, so semicolon-free
        lemma_trim_front_shape(s0);
        let a0 = ws_prefix_len(s0) as int;
        let u0 = s0.skip(a0);
        lemma_trim_back_shape(u0);
        assert forall|t: int| 0 <= t < tr.len() implies #[trigger] tr[t] != 59 by {
            assert(tr[t] == u0[t]);
            assert(u0[t] == s0[a0 + t]);
        };
        let k = pre.len() + tr.len();
        assert forall|t: int| 0 <= t < k implies #[trigger] text[t] != 59 by {
            if t < pre.len() {
                assert(text[t] == pre[t]);
            } else {
                assert(text[t] == tr[t - pre.len()]);
            }
        };
        assert(text[k as int] == 59);
        crate::text::lemma_find_semi_at(text, k as int);
        assert(spec_split(text) == seq![text.take(k as int)] + spec_split(text.skip(
            k as int + 1)));
        assert(text.take(k as int) =~= pre + tr);
        assert(text.skip(k as int + 1) =~= seq![10u8] + spec_dump(rest));
        // the first segment acts exactly like the original line
        lemma_cooked_trim(s0);
        if pre.len() == 0 {
            assert(pre + tr =~= tr);
        } else {
            assert(pre + tr =~= seq![10u8] + tr);
            lemma_cooked_nl_prefix(tr);
        }
        assert(spec_step(g, pre + tr) == spec_step(g, s0));
        let sp = spec_split(text);
        assert(sp[0] == pre + tr);
        assert(sp.skip(1) =~= spec_split(seq![10u8] + spec_dump(rest)));
        lemma_run_dump_aux(spec_step(g, s0), seq![10u8], rest);
        assert(run_lines(g, sp) == run_lines(spec_step(g, pre + tr), sp.skip(1)));
        assert(run_lines(g, h) == run_lines(spec_step(g, s0), rest));
    }
}

/// Record/replay fidelity: replaying the `dump` of a history of accepted
/// command lines against a grid reproduces exactly the grid those commands
/// produced.
pub proof fn lemma_dump_replay(g0: Seq<Seq<bool>>, h: Seq<Seq<u8>>)
    requires
        forall|i: int| 0 <= i < h.len() ==> spec_accepted(#[trigger] h[i]),
    ensures
        spec_run_script(g0, spec_dump(h)) == run_lines(g0, h),
{
    assert forall|i: int| 0 <= i < h.len() implies no_semi(#[trigger] h[i]) by {
        lemma_accepted_no_semi(h[i]);
    };
    assert(Seq::<u8>::empty() + spec_dump(h) =~= spec_dump(h));
    lemma_run_dump_aux(g0, Seq::empty(), h);
}


} // verus!
