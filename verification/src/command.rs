//! The command language: the closed set of commands, the parser that turns
//! a tokenized line into one, and the dispatcher that applies a command to
//! the image.

use vstd::prelude::*;
use crate::image::Image;
use crate::image::spec_write;
use crate::image::spec_clear;
use crate::image::spec_invert;
use crate::image::spec_resize;
use crate::flood::spec_flood;
use crate::draw::Warn;
use crate::draw::spec_line;
use crate::draw::spec_rect;
use crate::draw::spec_rect_outline;
use crate::draw::spec_circle;
use crate::draw::spec_circle_outline;
use crate::draw::spec_curve;
use crate::text::spec_parse_i32;
use crate::text::spec_parse_bool;
use crate::text::views;
use crate::text::no_semi;
use crate::text::lemma_int_token_no_semi;
use crate::text::lemma_bool_token_no_semi;
use crate::text::bytes_eq;
use crate::text::parse_i32_tok;
use crate::text::parse_bool_tok;

verus! {

/// The bytes of `"help"`.
pub open spec fn name_help() -> Seq<u8> {
    seq![104u8, 101, 108, 112]
}

/// The bytes of `"h"`.
pub open spec fn name_h() -> Seq<u8> {
    seq![104u8]
}

/// The bytes of `"dump"`.
pub open spec fn name_dump() -> Seq<u8> {
    seq![100u8, 117, 109, 112]
}

/// The bytes of `"d"`.
pub open spec fn name_d() -> Seq<u8> {
    seq![100u8]
}

/// The bytes of `"write"`.
pub open spec fn name_write() -> Seq<u8> {
    seq![119u8, 114, 105, 116, 101]
}

/// The bytes of `"w"`.
pub open spec fn name_w() -> Seq<u8> {
    seq![119u8]
}

/// The bytes of `"fill"`.
pub open spec fn name_fill() -> Seq<u8> {
    seq![102u8, 105, 108, 108]
}

/// The bytes of `"f"`.
pub open spec fn name_f() -> Seq<u8> {
    seq![102u8]
}

/// The bytes of `"resize"`.
pub open spec fn name_resize() -> Seq<u8> {
    seq![114u8, 101, 115, 105, 122, 101]
}

/// The bytes of `"r"`.
pub open spec fn name_r() -> Seq<u8> {
    seq![114u8]
}

/// The bytes of `"clear"`.
pub open spec fn name_clear() -> Seq<u8> {
    seq![99u8, 108, 101, 97, 114]
}

/// The bytes of `"c"`.
pub open spec fn name_c() -> Seq<u8> {
    seq![99u8]
}

/// The bytes of `"draw_rectangle"`.
pub open spec fn name_dr_full() -> Seq<u8> {
    seq![100u8, 114, 97, 119, 95, 114, 101, 99, 116, 97, 110, 103, 108, 101]
}

/// The bytes of `"dr"`.
pub open spec fn name_dr() -> Seq<u8> {
    seq![100u8, 114]
}

/// The bytes of `"draw_rectangle_outline"`.
pub open spec fn name_dro_full() -> Seq<u8> {
    seq![100u8, 114, 97, 119, 95, 114, 101, 99, 116, 97, 110, 103, 108, 101, 95, 111, 117, 116, 108, 105, 110, 101]
}

/// The bytes of `"dro"`.
pub open spec fn name_dro() -> Seq<u8> {
    seq![100u8, 114, 111]
}

/// The bytes of `"draw_line"`.
pub open spec fn name_dl_full() -> Seq<u8> {
    seq![100u8, 114, 97, 119, 95, 108, 105, 110, 101]
}

/// The bytes of `"dl"`.
pub open spec fn name_dl() -> Seq<u8> {
    seq![100u8, 108]
}

/// The bytes of `"draw_curve"`.
pub open spec fn name_db_full() -> Seq<u8> {
    seq![100u8, 114, 97, 119, 95, 99, 117, 114, 118, 101]
}

/// The bytes of `"db"`.
pub open spec fn name_db() -> Seq<u8> {
    seq![100u8, 98]
}

/// The bytes of `"draw_circle"`.
pub open spec fn name_dc_full() -> Seq<u8> {
    seq![100u8, 114, 97, 119, 95, 99, 105, 114, 99, 108, 101]
}

/// The bytes of `"dc"`.
pub open spec fn name_dc() -> Seq<u8> {
    seq![100u8, 99]
}

/// The bytes of `"draw_circle_outline"`.
pub open spec fn name_dco_full() -> Seq<u8> {
    seq![100u8, 114, 97, 119, 95, 99, 105, 114, 99, 108, 101, 95, 111, 117, 116, 108, 105, 110, 101]
}

/// The bytes of `"dco"`.
pub open spec fn name_dco() -> Seq<u8> {
    seq![100u8, 99, 111]
}

/// The bytes of `"invert"`.
pub open spec fn name_invert() -> Seq<u8> {
    seq![105u8, 110, 118, 101, 114, 116]
}

/// The bytes of `"i"`.
pub open spec fn name_i() -> Seq<u8> {
    seq![105u8]
}

/// The bytes of `"quit"`.
pub open spec fn name_quit() -> Seq<u8> {
    seq![113u8, 117, 105, 116]
}

/// The bytes of `"q"`.
pub open spec fn name_q() -> Seq<u8> {
    seq![113u8]
}

fn name_help_vec() -> (r: Vec<u8>)
    ensures
        r@ == name_help(),
{
    let r: Vec<u8> = vec![104u8, 101, 108, 112];
    proof {
        assert(r@ =~= name_help());
    }
    r
}

fn name_h_vec() -> (r: Vec<u8>)
    ensures
        r@ == name_h(),
{
    let r: Vec<u8> = vec![104u8];
    proof {
        assert(r@ =~= name_h());
    }
    r
}

fn name_dump_vec() -> (r: Vec<u8>)
    ensures
        r@ == name_dump(),
{
    let r: Vec<u8> = vec![100u8, 117, 109, 112];
    proof {
        assert(r@ =~= name_dump());
    }
    r
}

fn name_d_vec() -> (r: Vec<u8>)
    ensures
        r@ == name_d(),
{
    let r: Vec<u8> = vec![100u8];
    proof {
        assert(r@ =~= name_d());
    }
    r
}

fn name_write_vec() -> (r: Vec<u8>)
    ensures
        r@ == name_write(),
{
    let r: Vec<u8> = vec![119u8, 114, 105, 116, 101];
    proof {
        assert(r@ =~= name_write());
    }
    r
}

fn name_w_vec() -> (r: Vec<u8>)
    ensures
        r@ == name_w(),
{
    let r: Vec<u8> = vec![119u8];
    proof {
        assert(r@ =~= name_w());
    }
    r
}

fn name_fill_vec() -> (r: Vec<u8>)
    ensures
        r@ == name_fill(),
{
    let r: Vec<u8> = vec![102u8, 105, 108, 108];
    proof {
        assert(r@ =~= name_fill());
    }
    r
}

fn name_f_vec() -> (r: Vec<u8>)
    ensures
        r@ == name_f(),
{
    let r: Vec<u8> = vec![102u8];
    proof {
        assert(r@ =~= name_f());
    }
    r
}

fn name_resize_vec() -> (r: Vec<u8>)
    ensures
        r@ == name_resize(),
{
    let r: Vec<u8> = vec![114u8, 101, 115, 105, 122, 101];
    proof {
        assert(r@ =~= name_resize());
    }
    r
}

fn name_r_vec() -> (r: Vec<u8>)
    ensures
        r@ == name_r(),
{
    let r: Vec<u8> = vec![114u8];
    proof {
        assert(r@ =~= name_r());
    }
    r
}

fn name_clear_vec() -> (r: Vec<u8>)
    ensures
        r@ == name_clear(),
{
    let r: Vec<u8> = vec![99u8, 108, 101, 97, 114];
    proof {
        assert(r@ =~= name_clear());
    }
    r
}

fn name_c_vec() -> (r: Vec<u8>)
    ensures
        r@ == name_c(),
{
    let r: Vec<u8> = vec![99u8];
    proof {
        assert(r@ =~= name_c());
    }
    r
}

fn name_dr_full_vec() -> (r: Vec<u8>)
    ensures
        r@ == name_dr_full(),
{
    let r: Vec<u8> = vec![100u8, 114, 97, 119, 95, 114, 101, 99, 116, 97, 110, 103, 108, 101];
    proof {
        assert(r@ =~= name_dr_full());
    }
    r
}

fn name_dr_vec() -> (r: Vec<u8>)
    ensures
        r@ == name_dr(),
{
    let r: Vec<u8> = vec![100u8, 114];
    proof {
        assert(r@ =~= name_dr());
    }
    r
}

fn name_dro_full_vec() -> (r: Vec<u8>)
    ensures
        r@ == name_dro_full(),
{
    let r: Vec<u8> = vec![100u8, 114, 97, 119, 95, 114, 101, 99, 116, 97, 110, 103, 108, 101, 95, 111, 117, 116, 108, 105, 110, 101];
    proof {
        assert(r@ =~= name_dro_full());
    }
    r
}

fn name_dro_vec() -> (r: Vec<u8>)
    ensures
        r@ == name_dro(),
{
    let r: Vec<u8> = vec![100u8, 114, 111];
    proof {
        assert(r@ =~= name_dro());
    }
    r
}

fn name_dl_full_vec() -> (r: Vec<u8>)
    ensures
        r@ == name_dl_full(),
{
    let r: Vec<u8> = vec![100u8, 114, 97, 119, 95, 108, 105, 110, 101];
    proof {
        assert(r@ =~= name_dl_full());
    }
    r
}

fn name_dl_vec() -> (r: Vec<u8>)
    ensures
        r@ == name_dl(),
{
    let r: Vec<u8> = vec![100u8, 108];
    proof {
        assert(r@ =~= name_dl());
    }
    r
}

fn name_db_full_vec() -> (r: Vec<u8>)
    ensures
        r@ == name_db_full(),
{
    let r: Vec<u8> = vec![100u8, 114, 97, 119, 95, 99, 117, 114, 118, 101];
    proof {
        assert(r@ =~= name_db_full());
    }
    r
}

fn name_db_vec() -> (r: Vec<u8>)
    ensures
        r@ == name_db(),
{
    let r: Vec<u8> = vec![100u8, 98];
    proof {
        assert(r@ =~= name_db());
    }
    r
}

fn name_dc_full_vec() -> (r: Vec<u8>)
    ensures
        r@ == name_dc_full(),
{
    let r: Vec<u8> = vec![100u8, 114, 97, 119, 95, 99, 105, 114, 99, 108, 101];
    proof {
        assert(r@ =~= name_dc_full());
    }
    r
}

fn name_dc_vec() -> (r: Vec<u8>)
    ensures
        r@ == name_dc(),
{
    let r: Vec<u8> = vec![100u8, 99];
    proof {
        assert(r@ =~= name_dc());
    }
    r
}

fn name_dco_full_vec() -> (r: Vec<u8>)
    ensures
        r@ == name_dco_full(),
{
    let r: Vec<u8> = vec![100u8, 114, 97, 119, 95, 99, 105, 114, 99, 108, 101, 95, 111, 117, 116, 108, 105, 110, 101];
    proof {
        assert(r@ =~= name_dco_full());
    }
    r
}

fn name_dco_vec() -> (r: Vec<u8>)
    ensures
        r@ == name_dco(),
{
    let r: Vec<u8> = vec![100u8, 99, 111];
    proof {
        assert(r@ =~= name_dco());
    }
    r
}

fn name_invert_vec() -> (r: Vec<u8>)
    ensures
        r@ == name_invert(),
{
    let r: Vec<u8> = vec![105u8, 110, 118, 101, 114, 116];
    proof {
        assert(r@ =~= name_invert());
    }
    r
}

fn name_i_vec() -> (r: Vec<u8>)
    ensures
        r@ == name_i(),
{
    let r: Vec<u8> = vec![105u8];
    proof {
        assert(r@ =~= name_i());
    }
    r
}

fn name_quit_vec() -> (r: Vec<u8>)
    ensures
        r@ == name_quit(),
{
    let r: Vec<u8> = vec![113u8, 117, 105, 116];
    proof {
        assert(r@ =~= name_quit());
    }
    r
}

fn name_q_vec() -> (r: Vec<u8>)
    ensures
        r@ == name_q(),
{
    let r: Vec<u8> = vec![113u8];
    proof {
        assert(r@ =~= name_q());
    }
    r
}

/// No command name or alias contains a semicolon.
pub proof fn lemma_names_no_semi()
    ensures
        no_semi(name_help()),
        no_semi(name_h()),
        no_semi(name_dump()),
        no_semi(name_d()),
        no_semi(name_write()),
        no_semi(name_w()),
        no_semi(name_fill()),
        no_semi(name_f()),
        no_semi(name_resize()),
        no_semi(name_r()),
        no_semi(name_clear()),
        no_semi(name_c()),
        no_semi(name_dr_full()),
        no_semi(name_dr()),
        no_semi(name_dro_full()),
        no_semi(name_dro()),
        no_semi(name_dl_full()),
        no_semi(name_dl()),
        no_semi(name_db_full()),
        no_semi(name_db()),
        no_semi(name_dc_full()),
        no_semi(name_dc()),
        no_semi(name_dco_full()),
        no_semi(name_dco()),
        no_semi(name_invert()),
        no_semi(name_i()),
        no_semi(name_quit()),
        no_semi(name_q()),
{
}

/// All command names and aliases are pairwise distinct.
#[verifier::spinoff_prover]
#[verifier::rlimit(100)]
pub proof fn lemma_names_distinct()
    ensures
        name_help() != name_h(),
        name_help() != name_dump(),
        name_help() != name_d(),
        name_help() != name_write(),
        name_help() != name_w(),
        name_help() != name_fill(),
        name_help() != name_f(),
        name_help() != name_resize(),
        name_help() != name_r(),
        name_help() != name_clear(),
        name_help() != name_c(),
        name_help() != name_dr_full(),
        name_help() != name_dr(),
        name_help() != name_dro_full(),
        name_help() != name_dro(),
        name_help() != name_dl_full(),
        name_help() != name_dl(),
        name_help() != name_db_full(),
        name_help() != name_db(),
        name_help() != name_dc_full(),
        name_help() != name_dc(),
        name_help() != name_dco_full(),
        name_help() != name_dco(),
        name_help() != name_invert(),
        name_help() != name_i(),
        name_help() != name_quit(),
        name_help() != name_q(),
        name_h() != name_dump(),
        name_h() != name_d(),
        name_h() != name_write(),
        name_h() != name_w(),
        name_h() != name_fill(),
        name_h() != name_f(),
        name_h() != name_resize(),
        name_h() != name_r(),
        name_h() != name_clear(),
        name_h() != name_c(),
        name_h() != name_dr_full(),
        name_h() != name_dr(),
        name_h() != name_dro_full(),
        name_h() != name_dro(),
        name_h() != name_dl_full(),
        name_h() != name_dl(),
        name_h() != name_db_full(),
        name_h() != name_db(),
        name_h() != name_dc_full(),
        name_h() != name_dc(),
        name_h() != name_dco_full(),
        name_h() != name_dco(),
        name_h() != name_invert(),
        name_h() != name_i(),
        name_h() != name_quit(),
        name_h() != name_q(),
        name_dump() != name_d(),
        name_dump() != name_write(),
        name_dump() != name_w(),
        name_dump() != name_fill(),
        name_dump() != name_f(),
        name_dump() != name_resize(),
        name_dump() != name_r(),
        name_dump() != name_clear(),
        name_dump() != name_c(),
        name_dump() != name_dr_full(),
        name_dump() != name_dr(),
        name_dump() != name_dro_full(),
        name_dump() != name_dro(),
        name_dump() != name_dl_full(),
        name_dump() != name_dl(),
        name_dump() != name_db_full(),
        name_dump() != name_db(),
        name_dump() != name_dc_full(),
        name_dump() != name_dc(),
        name_dump() != name_dco_full(),
        name_dump() != name_dco(),
        name_dump() != name_invert(),
        name_dump() != name_i(),
        name_dump() != name_quit(),
        name_dump() != name_q(),
        name_d() != name_write(),
        name_d() != name_w(),
        name_d() != name_fill(),
        name_d() != name_f(),
        name_d() != name_resize(),
        name_d() != name_r(),
        name_d() != name_clear(),
        name_d() != name_c(),
        name_d() != name_dr_full(),
        name_d() != name_dr(),
        name_d() != name_dro_full(),
        name_d() != name_dro(),
        name_d() != name_dl_full(),
        name_d() != name_dl(),
        name_d() != name_db_full(),
        name_d() != name_db(),
        name_d() != name_dc_full(),
        name_d() != name_dc(),
        name_d() != name_dco_full(),
        name_d() != name_dco(),
        name_d() != name_invert(),
        name_d() != name_i(),
        name_d() != name_quit(),
        name_d() != name_q(),
        name_write() != name_w(),
        name_write() != name_fill(),
        name_write() != name_f(),
        name_write() != name_resize(),
        name_write() != name_r(),
        name_write() != name_clear(),
        name_write() != name_c(),
        name_write() != name_dr_full(),
        name_write() != name_dr(),
        name_write() != name_dro_full(),
        name_write() != name_dro(),
        name_write() != name_dl_full(),
        name_write() != name_dl(),
        name_write() != name_db_full(),
        name_write() != name_db(),
        name_write() != name_dc_full(),
        name_write() != name_dc(),
        name_write() != name_dco_full(),
        name_write() != name_dco(),
        name_write() != name_invert(),
        name_write() != name_i(),
        name_write() != name_quit(),
        name_write() != name_q(),
        name_w() != name_fill(),
        name_w() != name_f(),
        name_w() != name_resize(),
        name_w() != name_r(),
        name_w() != name_clear(),
        name_w() != name_c(),
        name_w() != name_dr_full(),
        name_w() != name_dr(),
        name_w() != name_dro_full(),
        name_w() != name_dro(),
        name_w() != name_dl_full(),
        name_w() != name_dl(),
        name_w() != name_db_full(),
        name_w() != name_db(),
        name_w() != name_dc_full(),
        name_w() != name_dc(),
        name_w() != name_dco_full(),
        name_w() != name_dco(),
        name_w() != name_invert(),
        name_w() != name_i(),
        name_w() != name_quit(),
        name_w() != name_q(),
        name_fill() != name_f(),
        name_fill() != name_resize(),
        name_fill() != name_r(),
        name_fill() != name_clear(),
        name_fill() != name_c(),
        name_fill() != name_dr_full(),
        name_fill() != name_dr(),
        name_fill() != name_dro_full(),
        name_fill() != name_dro(),
        name_fill() != name_dl_full(),
        name_fill() != name_dl(),
        name_fill() != name_db_full(),
        name_fill() != name_db(),
        name_fill() != name_dc_full(),
        name_fill() != name_dc(),
        name_fill() != name_dco_full(),
        name_fill() != name_dco(),
        name_fill() != name_invert(),
        name_fill() != name_i(),
        name_fill() != name_quit(),
        name_fill() != name_q(),
        name_f() != name_resize(),
        name_f() != name_r(),
        name_f() != name_clear(),
        name_f() != name_c(),
        name_f() != name_dr_full(),
        name_f() != name_dr(),
        name_f() != name_dro_full(),
        name_f() != name_dro(),
        name_f() != name_dl_full(),
        name_f() != name_dl(),
        name_f() != name_db_full(),
        name_f() != name_db(),
        name_f() != name_dc_full(),
        name_f() != name_dc(),
        name_f() != name_dco_full(),
        name_f() != name_dco(),
        name_f() != name_invert(),
        name_f() != name_i(),
        name_f() != name_quit(),
        name_f() != name_q(),
        name_resize() != name_r(),
        name_resize() != name_clear(),
        name_resize() != name_c(),
        name_resize() != name_dr_full(),
        name_resize() != name_dr(),
        name_resize() != name_dro_full(),
        name_resize() != name_dro(),
        name_resize() != name_dl_full(),
        name_resize() != name_dl(),
        name_resize() != name_db_full(),
        name_resize() != name_db(),
        name_resize() != name_dc_full(),
        name_resize() != name_dc(),
        name_resize() != name_dco_full(),
        name_resize() != name_dco(),
        name_resize() != name_invert(),
        name_resize() != name_i(),
        name_resize() != name_quit(),
        name_resize() != name_q(),
        name_r() != name_clear(),
        name_r() != name_c(),
        name_r() != name_dr_full(),
        name_r() != name_dr(),
        name_r() != name_dro_full(),
        name_r() != name_dro(),
        name_r() != name_dl_full(),
        name_r() != name_dl(),
        name_r() != name_db_full(),
        name_r() != name_db(),
        name_r() != name_dc_full(),
        name_r() != name_dc(),
        name_r() != name_dco_full(),
        name_r() != name_dco(),
        name_r() != name_invert(),
        name_r() != name_i(),
        name_r() != name_quit(),
        name_r() != name_q(),
        name_clear() != name_c(),
        name_clear() != name_dr_full(),
        name_clear() != name_dr(),
        name_clear() != name_dro_full(),
        name_clear() != name_dro(),
        name_clear() != name_dl_full(),
        name_clear() != name_dl(),
        name_clear() != name_db_full(),
        name_clear() != name_db(),
        name_clear() != name_dc_full(),
        name_clear() != name_dc(),
        name_clear() != name_dco_full(),
        name_clear() != name_dco(),
        name_clear() != name_invert(),
        name_clear() != name_i(),
        name_clear() != name_quit(),
        name_clear() != name_q(),
        name_c() != name_dr_full(),
        name_c() != name_dr(),
        name_c() != name_dro_full(),
        name_c() != name_dro(),
        name_c() != name_dl_full(),
        name_c() != name_dl(),
        name_c() != name_db_full(),
        name_c() != name_db(),
        name_c() != name_dc_full(),
        name_c() != name_dc(),
        name_c() != name_dco_full(),
        name_c() != name_dco(),
        name_c() != name_invert(),
        name_c() != name_i(),
        name_c() != name_quit(),
        name_c() != name_q(),
        name_dr_full() != name_dr(),
        name_dr_full() != name_dro_full(),
        name_dr_full() != name_dro(),
        name_dr_full() != name_dl_full(),
        name_dr_full() != name_dl(),
        name_dr_full() != name_db_full(),
        name_dr_full() != name_db(),
        name_dr_full() != name_dc_full(),
        name_dr_full() != name_dc(),
        name_dr_full() != name_dco_full(),
        name_dr_full() != name_dco(),
        name_dr_full() != name_invert(),
        name_dr_full() != name_i(),
        name_dr_full() != name_quit(),
        name_dr_full() != name_q(),
        name_dr() != name_dro_full(),
        name_dr() != name_dro(),
        name_dr() != name_dl_full(),
        name_dr() != name_dl(),
        name_dr() != name_db_full(),
        name_dr() != name_db(),
        name_dr() != name_dc_full(),
        name_dr() != name_dc(),
        name_dr() != name_dco_full(),
        name_dr() != name_dco(),
        name_dr() != name_invert(),
        name_dr() != name_i(),
        name_dr() != name_quit(),
        name_dr() != name_q(),
        name_dro_full() != name_dro(),
        name_dro_full() != name_dl_full(),
        name_dro_full() != name_dl(),
        name_dro_full() != name_db_full(),
        name_dro_full() != name_db(),
        name_dro_full() != name_dc_full(),
        name_dro_full() != name_dc(),
        name_dro_full() != name_dco_full(),
        name_dro_full() != name_dco(),
        name_dro_full() != name_invert(),
        name_dro_full() != name_i(),
        name_dro_full() != name_quit(),
        name_dro_full() != name_q(),
        name_dro() != name_dl_full(),
        name_dro() != name_dl(),
        name_dro() != name_db_full(),
        name_dro() != name_db(),
        name_dro() != name_dc_full(),
        name_dro() != name_dc(),
        name_dro() != name_dco_full(),
        name_dro() != name_dco(),
        name_dro() != name_invert(),
        name_dro() != name_i(),
        name_dro() != name_quit(),
        name_dro() != name_q(),
        name_dl_full() != name_dl(),
        name_dl_full() != name_db_full(),
        name_dl_full() != name_db(),
        name_dl_full() != name_dc_full(),
        name_dl_full() != name_dc(),
        name_dl_full() != name_dco_full(),
        name_dl_full() != name_dco(),
        name_dl_full() != name_invert(),
        name_dl_full() != name_i(),
        name_dl_full() != name_quit(),
        name_dl_full() != name_q(),
        name_dl() != name_db_full(),
        name_dl() != name_db(),
        name_dl() != name_dc_full(),
        name_dl() != name_dc(),
        name_dl() != name_dco_full(),
        name_dl() != name_dco(),
        name_dl() != name_invert(),
        name_dl() != name_i(),
        name_dl() != name_quit(),
        name_dl() != name_q(),
        name_db_full() != name_db(),
        name_db_full() != name_dc_full(),
        name_db_full() != name_dc(),
        name_db_full() != name_dco_full(),
        name_db_full() != name_dco(),
        name_db_full() != name_invert(),
        name_db_full() != name_i(),
        name_db_full() != name_quit(),
        name_db_full() != name_q(),
        name_db() != name_dc_full(),
        name_db() != name_dc(),
        name_db() != name_dco_full(),
        name_db() != name_dco(),
        name_db() != name_invert(),
        name_db() != name_i(),
        name_db() != name_quit(),
        name_db() != name_q(),
        name_dc_full() != name_dc(),
        name_dc_full() != name_dco_full(),
        name_dc_full() != name_dco(),
        name_dc_full() != name_invert(),
        name_dc_full() != name_i(),
        name_dc_full() != name_quit(),
        name_dc_full() != name_q(),
        name_dc() != name_dco_full(),
        name_dc() != name_dco(),
        name_dc() != name_invert(),
        name_dc() != name_i(),
        name_dc() != name_quit(),
        name_dc() != name_q(),
        name_dco_full() != name_dco(),
        name_dco_full() != name_invert(),
        name_dco_full() != name_i(),
        name_dco_full() != name_quit(),
        name_dco_full() != name_q(),
        name_dco() != name_invert(),
        name_dco() != name_i(),
        name_dco() != name_quit(),
        name_dco() != name_q(),
        name_invert() != name_i(),
        name_invert() != name_quit(),
        name_invert() != name_q(),
        name_i() != name_quit(),
        name_i() != name_q(),
        name_quit() != name_q(),
{
    assert(name_help().len() == 4 && name_h().len() == 1);
    assert(name_help()[0] == 104 && name_dump()[0] == 100);
    assert(name_help().len() == 4 && name_d().len() == 1);
    assert(name_help().len() == 4 && name_write().len() == 5);
    assert(name_help().len() == 4 && name_w().len() == 1);
    assert(name_help()[0] == 104 && name_fill()[0] == 102);
    assert(name_help().len() == 4 && name_f().len() == 1);
    assert(name_help().len() == 4 && name_resize().len() == 6);
    assert(name_help().len() == 4 && name_r().len() == 1);
    assert(name_help().len() == 4 && name_clear().len() == 5);
    assert(name_help().len() == 4 && name_c().len() == 1);
    assert(name_help().len() == 4 && name_dr_full().len() == 14);
    assert(name_help().len() == 4 && name_dr().len() == 2);
    assert(name_help().len() == 4 && name_dro_full().len() == 22);
    assert(name_help().len() == 4 && name_dro().len() == 3);
    assert(name_help().len() == 4 && name_dl_full().len() == 9);
    assert(name_help().len() == 4 && name_dl().len() == 2);
    assert(name_help().len() == 4 && name_db_full().len() == 10);
    assert(name_help().len() == 4 && name_db().len() == 2);
    assert(name_help().len() == 4 && name_dc_full().len() == 11);
    assert(name_help().len() == 4 && name_dc().len() == 2);
    assert(name_help().len() == 4 && name_dco_full().len() == 19);
    assert(name_help().len() == 4 && name_dco().len() == 3);
    assert(name_help().len() == 4 && name_invert().len() == 6);
    assert(name_help().len() == 4 && name_i().len() == 1);
    assert(name_help()[0] == 104 && name_quit()[0] == 113);
    assert(name_help().len() == 4 && name_q().len() == 1);
    assert(name_h().len() == 1 && name_dump().len() == 4);
    assert(name_h()[0] == 104 && name_d()[0] == 100);
    assert(name_h().len() == 1 && name_write().len() == 5);
    assert(name_h()[0] == 104 && name_w()[0] == 119);
    assert(name_h().len() == 1 && name_fill().len() == 4);
    assert(name_h()[0] == 104 && name_f()[0] == 102);
    assert(name_h().len() == 1 && name_resize().len() == 6);
    assert(name_h()[0] == 104 && name_r()[0] == 114);
    assert(name_h().len() == 1 && name_clear().len() == 5);
    assert(name_h()[0] == 104 && name_c()[0] == 99);
    assert(name_h().len() == 1 && name_dr_full().len() == 14);
    assert(name_h().len() == 1 && name_dr().len() == 2);
    assert(name_h().len() == 1 && name_dro_full().len() == 22);
    assert(name_h().len() == 1 && name_dro().len() == 3);
    assert(name_h().len() == 1 && name_dl_full().len() == 9);
    assert(name_h().len() == 1 && name_dl().len() == 2);
    assert(name_h().len() == 1 && name_db_full().len() == 10);
    assert(name_h().len() == 1 && name_db().len() == 2);
    assert(name_h().len() == 1 && name_dc_full().len() == 11);
    assert(name_h().len() == 1 && name_dc().len() == 2);
    assert(name_h().len() == 1 && name_dco_full().len() == 19);
    assert(name_h().len() == 1 && name_dco().len() == 3);
    assert(name_h().len() == 1 && name_invert().len() == 6);
    assert(name_h()[0] == 104 && name_i()[0] == 105);
    assert(name_h().len() == 1 && name_quit().len() == 4);
    assert(name_h()[0] == 104 && name_q()[0] == 113);
    assert(name_dump().len() == 4 && name_d().len() == 1);
    assert(name_dump().len() == 4 && name_write().len() == 5);
    assert(name_dump().len() == 4 && name_w().len() == 1);
    assert(name_dump()[0] == 100 && name_fill()[0] == 102);
    assert(name_dump().len() == 4 && name_f().len() == 1);
    assert(name_dump().len() == 4 && name_resize().len() == 6);
    assert(name_dump().len() == 4 && name_r().len() == 1);
    assert(name_dump().len() == 4 && name_clear().len() == 5);
    assert(name_dump().len() == 4 && name_c().len() == 1);
    assert(name_dump().len() == 4 && name_dr_full().len() == 14);
    assert(name_dump().len() == 4 && name_dr().len() == 2);
    assert(name_dump().len() == 4 && name_dro_full().len() == 22);
    assert(name_dump().len() == 4 && name_dro().len() == 3);
    assert(name_dump().len() == 4 && name_dl_full().len() == 9);
    assert(name_dump().len() == 4 && name_dl().len() == 2);
    assert(name_dump().len() == 4 && name_db_full().len() == 10);
    assert(name_dump().len() == 4 && name_db().len() == 2);
    assert(name_dump().len() == 4 && name_dc_full().len() == 11);
    assert(name_dump().len() == 4 && name_dc().len() == 2);
    assert(name_dump().len() == 4 && name_dco_full().len() == 19);
    assert(name_dump().len() == 4 && name_dco().len() == 3);
    assert(name_dump().len() == 4 && name_invert().len() == 6);
    assert(name_dump().len() == 4 && name_i().len() == 1);
    assert(name_dump()[0] == 100 && name_quit()[0] == 113);
    assert(name_dump().len() == 4 && name_q().len() == 1);
    assert(name_d().len() == 1 && name_write().len() == 5);
    assert(name_d()[0] == 100 && name_w()[0] == 119);
    assert(name_d().len() == 1 && name_fill().len() == 4);
    assert(name_d()[0] == 100 && name_f()[0] == 102);
    assert(name_d().len() == 1 && name_resize().len() == 6);
    assert(name_d()[0] == 100 && name_r()[0] == 114);
    assert(name_d().len() == 1 && name_clear().len() == 5);
    assert(name_d()[0] == 100 && name_c()[0] == 99);
    assert(name_d().len() == 1 && name_dr_full().len() == 14);
    assert(name_d().len() == 1 && name_dr().len() == 2);
    assert(name_d().len() == 1 && name_dro_full().len() == 22);
    assert(name_d().len() == 1 && name_dro().len() == 3);
    assert(name_d().len() == 1 && name_dl_full().len() == 9);
    assert(name_d().len() == 1 && name_dl().len() == 2);
    assert(name_d().len() == 1 && name_db_full().len() == 10);
    assert(name_d().len() == 1 && name_db().len() == 2);
    assert(name_d().len() == 1 && name_dc_full().len() == 11);
    assert(name_d().len() == 1 && name_dc().len() == 2);
    assert(name_d().len() == 1 && name_dco_full().len() == 19);
    assert(name_d().len() == 1 && name_dco().len() == 3);
    assert(name_d().len() == 1 && name_invert().len() == 6);
    assert(name_d()[0] == 100 && name_i()[0] == 105);
    assert(name_d().len() == 1 && name_quit().len() == 4);
    assert(name_d()[0] == 100 && name_q()[0] == 113);
    assert(name_write().len() == 5 && name_w().len() == 1);
    assert(name_write().len() == 5 && name_fill().len() == 4);
    assert(name_write().len() == 5 && name_f().len() == 1);
    assert(name_write().len() == 5 && name_resize().len() == 6);
    assert(name_write().len() == 5 && name_r().len() == 1);
    assert(name_write()[0] == 119 && name_clear()[0] == 99);
    assert(name_write().len() == 5 && name_c().len() == 1);
    assert(name_write().len() == 5 && name_dr_full().len() == 14);
    assert(name_write().len() == 5 && name_dr().len() == 2);
    assert(name_write().len() == 5 && name_dro_full().len() == 22);
    assert(name_write().len() == 5 && name_dro().len() == 3);
    assert(name_write().len() == 5 && name_dl_full().len() == 9);
    assert(name_write().len() == 5 && name_dl().len() == 2);
    assert(name_write().len() == 5 && name_db_full().len() == 10);
    assert(name_write().len() == 5 && name_db().len() == 2);
    assert(name_write().len() == 5 && name_dc_full().len() == 11);
    assert(name_write().len() == 5 && name_dc().len() == 2);
    assert(name_write().len() == 5 && name_dco_full().len() == 19);
    assert(name_write().len() == 5 && name_dco().len() == 3);
    assert(name_write().len() == 5 && name_invert().len() == 6);
    assert(name_write().len() == 5 && name_i().len() == 1);
    assert(name_write().len() == 5 && name_quit().len() == 4);
    assert(name_write().len() == 5 && name_q().len() == 1);
    assert(name_w().len() == 1 && name_fill().len() == 4);
    assert(name_w()[0] == 119 && name_f()[0] == 102);
    assert(name_w().len() == 1 && name_resize().len() == 6);
    assert(name_w()[0] == 119 && name_r()[0] == 114);
    assert(name_w().len() == 1 && name_clear().len() == 5);
    assert(name_w()[0] == 119 && name_c()[0] == 99);
    assert(name_w().len() == 1 && name_dr_full().len() == 14);
    assert(name_w().len() == 1 && name_dr().len() == 2);
    assert(name_w().len() == 1 && name_dro_full().len() == 22);
    assert(name_w().len() == 1 && name_dro().len() == 3);
    assert(name_w().len() == 1 && name_dl_full().len() == 9);
    assert(name_w().len() == 1 && name_dl().len() == 2);
    assert(name_w().len() == 1 && name_db_full().len() == 10);
    assert(name_w().len() == 1 && name_db().len() == 2);
    assert(name_w().len() == 1 && name_dc_full().len() == 11);
    assert(name_w().len() == 1 && name_dc().len() == 2);
    assert(name_w().len() == 1 && name_dco_full().len() == 19);
    assert(name_w().len() == 1 && name_dco().len() == 3);
    assert(name_w().len() == 1 && name_invert().len() == 6);
    assert(name_w()[0] == 119 && name_i()[0] == 105);
    assert(name_w().len() == 1 && name_quit().len() == 4);
    assert(name_w()[0] == 119 && name_q()[0] == 113);
    assert(name_fill().len() == 4 && name_f().len() == 1);
    assert(name_fill().len() == 4 && name_resize().len() == 6);
    assert(name_fill().len() == 4 && name_r().len() == 1);
    assert(name_fill().len() == 4 && name_clear().len() == 5);
    assert(name_fill().len() == 4 && name_c().len() == 1);
    assert(name_fill().len() == 4 && name_dr_full().len() == 14);
    assert(name_fill().len() == 4 && name_dr().len() == 2);
    assert(name_fill().len() == 4 && name_dro_full().len() == 22);
    assert(name_fill().len() == 4 && name_dro().len() == 3);
    assert(name_fill().len() == 4 && name_dl_full().len() == 9);
    assert(name_fill().len() == 4 && name_dl().len() == 2);
    assert(name_fill().len() == 4 && name_db_full().len() == 10);
    assert(name_fill().len() == 4 && name_db().len() == 2);
    assert(name_fill().len() == 4 && name_dc_full().len() == 11);
    assert(name_fill().len() == 4 && name_dc().len() == 2);
    assert(name_fill().len() == 4 && name_dco_full().len() == 19);
    assert(name_fill().len() == 4 && name_dco().len() == 3);
    assert(name_fill().len() == 4 && name_invert().len() == 6);
    assert(name_fill().len() == 4 && name_i().len() == 1);
    assert(name_fill()[0] == 102 && name_quit()[0] == 113);
    assert(name_fill().len() == 4 && name_q().len() == 1);
    assert(name_f().len() == 1 && name_resize().len() == 6);
    assert(name_f()[0] == 102 && name_r()[0] == 114);
    assert(name_f().len() == 1 && name_clear().len() == 5);
    assert(name_f()[0] == 102 && name_c()[0] == 99);
    assert(name_f().len() == 1 && name_dr_full().len() == 14);
    assert(name_f().len() == 1 && name_dr().len() == 2);
    assert(name_f().len() == 1 && name_dro_full().len() == 22);
    assert(name_f().len() == 1 && name_dro().len() == 3);
    assert(name_f().len() == 1 && name_dl_full().len() == 9);
    assert(name_f().len() == 1 && name_dl().len() == 2);
    assert(name_f().len() == 1 && name_db_full().len() == 10);
    assert(name_f().len() == 1 && name_db().len() == 2);
    assert(name_f().len() == 1 && name_dc_full().len() == 11);
    assert(name_f().len() == 1 && name_dc().len() == 2);
    assert(name_f().len() == 1 && name_dco_full().len() == 19);
    assert(name_f().len() == 1 && name_dco().len() == 3);
    assert(name_f().len() == 1 && name_invert().len() == 6);
    assert(name_f()[0] == 102 && name_i()[0] == 105);
    assert(name_f().len() == 1 && name_quit().len() == 4);
    assert(name_f()[0] == 102 && name_q()[0] == 113);
    assert(name_resize().len() == 6 && name_r().len() == 1);
    assert(name_resize().len() == 6 && name_clear().len() == 5);
    assert(name_resize().len() == 6 && name_c().len() == 1);
    assert(name_resize().len() == 6 && name_dr_full().len() == 14);
    assert(name_resize().len() == 6 && name_dr().len() == 2);
    assert(name_resize().len() == 6 && name_dro_full().len() == 22);
    assert(name_resize().len() == 6 && name_dro().len() == 3);
    assert(name_resize().len() == 6 && name_dl_full().len() == 9);
    assert(name_resize().len() == 6 && name_dl().len() == 2);
    assert(name_resize().len() == 6 && name_db_full().len() == 10);
    assert(name_resize().len() == 6 && name_db().len() == 2);
    assert(name_resize().len() == 6 && name_dc_full().len() == 11);
    assert(name_resize().len() == 6 && name_dc().len() == 2);
    assert(name_resize().len() == 6 && name_dco_full().len() == 19);
    assert(name_resize().len() == 6 && name_dco().len() == 3);
    assert(name_resize()[0] == 114 && name_invert()[0] == 105);
    assert(name_resize().len() == 6 && name_i().len() == 1);
    assert(name_resize().len() == 6 && name_quit().len() == 4);
    assert(name_resize().len() == 6 && name_q().len() == 1);
    assert(name_r().len() == 1 && name_clear().len() == 5);
    assert(name_r()[0] == 114 && name_c()[0] == 99);
    assert(name_r().len() == 1 && name_dr_full().len() == 14);
    assert(name_r().len() == 1 && name_dr().len() == 2);
    assert(name_r().len() == 1 && name_dro_full().len() == 22);
    assert(name_r().len() == 1 && name_dro().len() == 3);
    assert(name_r().len() == 1 && name_dl_full().len() == 9);
    assert(name_r().len() == 1 && name_dl().len() == 2);
    assert(name_r().len() == 1 && name_db_full().len() == 10);
    assert(name_r().len() == 1 && name_db().len() == 2);
    assert(name_r().len() == 1 && name_dc_full().len() == 11);
    assert(name_r().len() == 1 && name_dc().len() == 2);
    assert(name_r().len() == 1 && name_dco_full().len() == 19);
    assert(name_r().len() == 1 && name_dco().len() == 3);
    assert(name_r().len() == 1 && name_invert().len() == 6);
    assert(name_r()[0] == 114 && name_i()[0] == 105);
    assert(name_r().len() == 1 && name_quit().len() == 4);
    assert(name_r()[0] == 114 && name_q()[0] == 113);
    assert(name_clear().len() == 5 && name_c().len() == 1);
    assert(name_clear().len() == 5 && name_dr_full().len() == 14);
    assert(name_clear().len() == 5 && name_dr().len() == 2);
    assert(name_clear().len() == 5 && name_dro_full().len() == 22);
    assert(name_clear().len() == 5 && name_dro().len() == 3);
    assert(name_clear().len() == 5 && name_dl_full().len() == 9);
    assert(name_clear().len() == 5 && name_dl().len() == 2);
    assert(name_clear().len() == 5 && name_db_full().len() == 10);
    assert(name_clear().len() == 5 && name_db().len() == 2);
    assert(name_clear().len() == 5 && name_dc_full().len() == 11);
    assert(name_clear().len() == 5 && name_dc().len() == 2);
    assert(name_clear().len() == 5 && name_dco_full().len() == 19);
    assert(name_clear().len() == 5 && name_dco().len() == 3);
    assert(name_clear().len() == 5 && name_invert().len() == 6);
    assert(name_clear().len() == 5 && name_i().len() == 1);
    assert(name_clear().len() == 5 && name_quit().len() == 4);
    assert(name_clear().len() == 5 && name_q().len() == 1);
    assert(name_c().len() == 1 && name_dr_full().len() == 14);
    assert(name_c().len() == 1 && name_dr().len() == 2);
    assert(name_c().len() == 1 && name_dro_full().len() == 22);
    assert(name_c().len() == 1 && name_dro().len() == 3);
    assert(name_c().len() == 1 && name_dl_full().len() == 9);
    assert(name_c().len() == 1 && name_dl().len() == 2);
    assert(name_c().len() == 1 && name_db_full().len() == 10);
    assert(name_c().len() == 1 && name_db().len() == 2);
    assert(name_c().len() == 1 && name_dc_full().len() == 11);
    assert(name_c().len() == 1 && name_dc().len() == 2);
    assert(name_c().len() == 1 && name_dco_full().len() == 19);
    assert(name_c().len() == 1 && name_dco().len() == 3);
    assert(name_c().len() == 1 && name_invert().len() == 6);
    assert(name_c()[0] == 99 && name_i()[0] == 105);
    assert(name_c().len() == 1 && name_quit().len() == 4);
    assert(name_c()[0] == 99 && name_q()[0] == 113);
    assert(name_dr_full().len() == 14 && name_dr().len() == 2);
    assert(name_dr_full().len() == 14 && name_dro_full().len() == 22);
    assert(name_dr_full().len() == 14 && name_dro().len() == 3);
    assert(name_dr_full().len() == 14 && name_dl_full().len() == 9);
    assert(name_dr_full().len() == 14 && name_dl().len() == 2);
    assert(name_dr_full().len() == 14 && name_db_full().len() == 10);
    assert(name_dr_full().len() == 14 && name_db().len() == 2);
    assert(name_dr_full().len() == 14 && name_dc_full().len() == 11);
    assert(name_dr_full().len() == 14 && name_dc().len() == 2);
    assert(name_dr_full().len() == 14 && name_dco_full().len() == 19);
    assert(name_dr_full().len() == 14 && name_dco().len() == 3);
    assert(name_dr_full().len() == 14 && name_invert().len() == 6);
    assert(name_dr_full().len() == 14 && name_i().len() == 1);
    assert(name_dr_full().len() == 14 && name_quit().len() == 4);
    assert(name_dr_full().len() == 14 && name_q().len() == 1);
    assert(name_dr().len() == 2 && name_dro_full().len() == 22);
    assert(name_dr().len() == 2 && name_dro().len() == 3);
    assert(name_dr().len() == 2 && name_dl_full().len() == 9);
    assert(name_dr()[1] == 114 && name_dl()[1] == 108);
    assert(name_dr().len() == 2 && name_db_full().len() == 10);
    assert(name_dr()[1] == 114 && name_db()[1] == 98);
    assert(name_dr().len() == 2 && name_dc_full().len() == 11);
    assert(name_dr()[1] == 114 && name_dc()[1] == 99);
    assert(name_dr().len() == 2 && name_dco_full().len() == 19);
    assert(name_dr().len() == 2 && name_dco().len() == 3);
    assert(name_dr().len() == 2 && name_invert().len() == 6);
    assert(name_dr().len() == 2 && name_i().len() == 1);
    assert(name_dr().len() == 2 && name_quit().len() == 4);
    assert(name_dr().len() == 2 && name_q().len() == 1);
    assert(name_dro_full().len() == 22 && name_dro().len() == 3);
    assert(name_dro_full().len() == 22 && name_dl_full().len() == 9);
    assert(name_dro_full().len() == 22 && name_dl().len() == 2);
    assert(name_dro_full().len() == 22 && name_db_full().len() == 10);
    assert(name_dro_full().len() == 22 && name_db().len() == 2);
    assert(name_dro_full().len() == 22 && name_dc_full().len() == 11);
    assert(name_dro_full().len() == 22 && name_dc().len() == 2);
    assert(name_dro_full().len() == 22 && name_dco_full().len() == 19);
    assert(name_dro_full().len() == 22 && name_dco().len() == 3);
    assert(name_dro_full().len() == 22 && name_invert().len() == 6);
    assert(name_dro_full().len() == 22 && name_i().len() == 1);
    assert(name_dro_full().len() == 22 && name_quit().len() == 4);
    assert(name_dro_full().len() == 22 && name_q().len() == 1);
    assert(name_dro().len() == 3 && name_dl_full().len() == 9);
    assert(name_dro().len() == 3 && name_dl().len() == 2);
    assert(name_dro().len() == 3 && name_db_full().len() == 10);
    assert(name_dro().len() == 3 && name_db().len() == 2);
    assert(name_dro().len() == 3 && name_dc_full().len() == 11);
    assert(name_dro().len() == 3 && name_dc().len() == 2);
    assert(name_dro().len() == 3 && name_dco_full().len() == 19);
    assert(name_dro()[1] == 114 && name_dco()[1] == 99);
    assert(name_dro().len() == 3 && name_invert().len() == 6);
    assert(name_dro().len() == 3 && name_i().len() == 1);
    assert(name_dro().len() == 3 && name_quit().len() == 4);
    assert(name_dro().len() == 3 && name_q().len() == 1);
    assert(name_dl_full().len() == 9 && name_dl().len() == 2);
    assert(name_dl_full().len() == 9 && name_db_full().len() == 10);
    assert(name_dl_full().len() == 9 && name_db().len() == 2);
    assert(name_dl_full().len() == 9 && name_dc_full().len() == 11);
    assert(name_dl_full().len() == 9 && name_dc().len() == 2);
    assert(name_dl_full().len() == 9 && name_dco_full().len() == 19);
    assert(name_dl_full().len() == 9 && name_dco().len() == 3);
    assert(name_dl_full().len() == 9 && name_invert().len() == 6);
    assert(name_dl_full().len() == 9 && name_i().len() == 1);
    assert(name_dl_full().len() == 9 && name_quit().len() == 4);
    assert(name_dl_full().len() == 9 && name_q().len() == 1);
    assert(name_dl().len() == 2 && name_db_full().len() == 10);
    assert(name_dl()[1] == 108 && name_db()[1] == 98);
    assert(name_dl().len() == 2 && name_dc_full().len() == 11);
    assert(name_dl()[1] == 108 && name_dc()[1] == 99);
    assert(name_dl().len() == 2 && name_dco_full().len() == 19);
    assert(name_dl().len() == 2 && name_dco().len() == 3);
    assert(name_dl().len() == 2 && name_invert().len() == 6);
    assert(name_dl().len() == 2 && name_i().len() == 1);
    assert(name_dl().len() == 2 && name_quit().len() == 4);
    assert(name_dl().len() == 2 && name_q().len() == 1);
    assert(name_db_full().len() == 10 && name_db().len() == 2);
    assert(name_db_full().len() == 10 && name_dc_full().len() == 11);
    assert(name_db_full().len() == 10 && name_dc().len() == 2);
    assert(name_db_full().len() == 10 && name_dco_full().len() == 19);
    assert(name_db_full().len() == 10 && name_dco().len() == 3);
    assert(name_db_full().len() == 10 && name_invert().len() == 6);
    assert(name_db_full().len() == 10 && name_i().len() == 1);
    assert(name_db_full().len() == 10 && name_quit().len() == 4);
    assert(name_db_full().len() == 10 && name_q().len() == 1);
    assert(name_db().len() == 2 && name_dc_full().len() == 11);
    assert(name_db()[1] == 98 && name_dc()[1] == 99);
    assert(name_db().len() == 2 && name_dco_full().len() == 19);
    assert(name_db().len() == 2 && name_dco().len() == 3);
    assert(name_db().len() == 2 && name_invert().len() == 6);
    assert(name_db().len() == 2 && name_i().len() == 1);
    assert(name_db().len() == 2 && name_quit().len() == 4);
    assert(name_db().len() == 2 && name_q().len() == 1);
    assert(name_dc_full().len() == 11 && name_dc().len() == 2);
    assert(name_dc_full().len() == 11 && name_dco_full().len() == 19);
    assert(name_dc_full().len() == 11 && name_dco().len() == 3);
    assert(name_dc_full().len() == 11 && name_invert().len() == 6);
    assert(name_dc_full().len() == 11 && name_i().len() == 1);
    assert(name_dc_full().len() == 11 && name_quit().len() == 4);
    assert(name_dc_full().len() == 11 && name_q().len() == 1);
    assert(name_dc().len() == 2 && name_dco_full().len() == 19);
    assert(name_dc().len() == 2 && name_dco().len() == 3);
    assert(name_dc().len() == 2 && name_invert().len() == 6);
    assert(name_dc().len() == 2 && name_i().len() == 1);
    assert(name_dc().len() == 2 && name_quit().len() == 4);
    assert(name_dc().len() == 2 && name_q().len() == 1);
    assert(name_dco_full().len() == 19 && name_dco().len() == 3);
    assert(name_dco_full().len() == 19 && name_invert().len() == 6);
    assert(name_dco_full().len() == 19 && name_i().len() == 1);
    assert(name_dco_full().len() == 19 && name_quit().len() == 4);
    assert(name_dco_full().len() == 19 && name_q().len() == 1);
    assert(name_dco().len() == 3 && name_invert().len() == 6);
    assert(name_dco().len() == 3 && name_i().len() == 1);
    assert(name_dco().len() == 3 && name_quit().len() == 4);
    assert(name_dco().len() == 3 && name_q().len() == 1);
    assert(name_invert().len() == 6 && name_i().len() == 1);
    assert(name_invert().len() == 6 && name_quit().len() == 4);
    assert(name_invert().len() == 6 && name_q().len() == 1);
    assert(name_i().len() == 1 && name_quit().len() == 4);
    assert(name_i()[0] == 105 && name_q()[0] == 113);
    assert(name_quit().len() == 4 && name_q().len() == 1);
}

/// One parsed, validated command that acts on the grid.
#[derive(Clone, Copy, Debug, PartialEq, Eq, Structural)]
pub enum Command {
    Write { x: i32, y: i32, c: bool },
    Fill { x: i32, y: i32, c: bool },
    Resize { w: i32, h: i32 },
    Clear { c: bool },
    Rect { x: i32, y: i32, w: i32, h: i32, c: bool },
    RectOutline { x: i32, y: i32, w: i32, h: i32, c: bool },
    Line { x1: i32, y1: i32, x2: i32, y2: i32, c: bool },
    Curve { x0: i32, y0: i32, x1: i32, y1: i32, x2: i32, y2: i32, c: bool },
    Circle { x: i32, y: i32, r: i32, c: bool },
    CircleOutline { x: i32, y: i32, r: i32, c: bool },
    Invert,
}

/// The outcome of tokenizing and dispatching one line.
pub enum Parsed {
    Op { cmd: Command },
    Help,
    Dump,
    Quit,
    Empty,
    Usage { name: Vec<u8> },
    Unrecognized { name: Vec<u8> },
}

pub open spec fn is_help_toks(toks: Seq<Seq<u8>>) -> bool {
    toks.len() == 1 && (toks[0] == name_help() || toks[0] == name_h())
}

pub open spec fn is_dump_toks(toks: Seq<Seq<u8>>) -> bool {
    toks.len() == 1 && (toks[0] == name_dump() || toks[0] == name_d())
}

pub open spec fn is_quit_toks(toks: Seq<Seq<u8>>) -> bool {
    toks.len() == 1 && (toks[0] == name_quit() || toks[0] == name_q())
}

/// The names of the commands that take no arguments; like all commands
/// they are validated against their declared arity.
pub open spec fn zero_arg_name(name: Seq<u8>) -> bool {
    ||| name == name_help() || name == name_h()
    ||| name == name_dump() || name == name_d()
    ||| name == name_invert() || name == name_i()
    ||| name == name_quit() || name == name_q()
}

/// The names of the commands that take arguments.
pub open spec fn known_arg_name(name: Seq<u8>) -> bool {
    ||| name == name_write() || name == name_w()
    ||| name == name_fill() || name == name_f()
    ||| name == name_resize() || name == name_r()
    ||| name == name_clear() || name == name_c()
    ||| name == name_dr_full() || name == name_dr()
    ||| name == name_dro_full() || name == name_dro()
    ||| name == name_dl_full() || name == name_dl()
    ||| name == name_db_full() || name == name_db()
    ||| name == name_dc_full() || name == name_dc()
    ||| name == name_dco_full() || name == name_dco()
}

/// The command a token list denotes, if any: the name must be recognized,
/// the argument count exactly as the command table declares, and every
/// argument well formed.
pub open spec fn spec_cmd_of(toks: Seq<Seq<u8>>) -> Option<Command> {
    if toks.len() == 0 {
        None
    } else {
        let name = toks[0];
        if name == name_write() || name == name_w() {
            if toks.len() == 4 {
                match (spec_parse_i32(toks[1]), spec_parse_i32(toks[2]), spec_parse_bool(
                    toks[3],
                )) {
                    (Some(x), Some(y), Some(c)) => Some(Command::Write {
                        x: x as i32,
                        y: y as i32,
                        c,
                    }),
                    _ => None,
                }
            } else {
                None
            }
        } else if name == name_fill() || name == name_f() {
            if toks.len() == 4 {
                match (spec_parse_i32(toks[1]), spec_parse_i32(toks[2]), spec_parse_bool(
                    toks[3],
                )) {
                    (Some(x), Some(y), Some(c)) => Some(Command::Fill {
                        x: x as i32,
                        y: y as i32,
                        c,
                    }),
                    _ => None,
                }
            } else {
                None
            }
        } else if name == name_resize() || name == name_r() {
            if toks.len() == 3 {
                match (spec_parse_i32(toks[1]), spec_parse_i32(toks[2])) {
                    (Some(w), Some(h)) => Some(Command::Resize { w: w as i32, h: h as i32 }),
                    _ => None,
                }
            } else {
                None
            }
        } else if name == name_clear() || name == name_c() {
            if toks.len() == 2 {
                match spec_parse_bool(toks[1]) {
                    Some(c) => Some(Command::Clear { c }),
                    None => None,
                }
            } else {
                None
            }
        } else if name == name_dr_full() || name == name_dr() {
            if toks.len() == 6 {
                match (spec_parse_i32(toks[1]), spec_parse_i32(toks[2]), spec_parse_i32(
                    toks[3],
                ), spec_parse_i32(toks[4]), spec_parse_bool(toks[5])) {
                    (Some(x), Some(y), Some(w), Some(h), Some(c)) => Some(Command::Rect {
                        x: x as i32,
                        y: y as i32,
                        w: w as i32,
                        h: h as i32,
                        c,
                    }),
                    _ => None,
                }
            } else {
                None
            }
        } else if name == name_dro_full() || name == name_dro() {
            if toks.len() == 6 {
                match (spec_parse_i32(toks[1]), spec_parse_i32(toks[2]), spec_parse_i32(
                    toks[3],
                ), spec_parse_i32(toks[4]), spec_parse_bool(toks[5])) {
                    (Some(x), Some(y), Some(w), Some(h), Some(c)) => Some(
                        Command::RectOutline {
                            x: x as i32,
                            y: y as i32,
                            w: w as i32,
                            h: h as i32,
                            c,
                        },
                    ),
                    _ => None,
                }
            } else {
                None
            }
        } else if name == name_dl_full() || name == name_dl() {
            if toks.len() == 6 {
                match (spec_parse_i32(toks[1]), spec_parse_i32(toks[2]), spec_parse_i32(
                    toks[3],
                ), spec_parse_i32(toks[4]), spec_parse_bool(toks[5])) {
                    (Some(x1), Some(y1), Some(x2), Some(y2), Some(c)) => Some(Command::Line {
                        x1: x1 as i32,
                        y1: y1 as i32,
                        x2: x2 as i32,
                        y2: y2 as i32,
                        c,
                    }),
                    _ => None,
                }
            } else {
                None
            }
        } else if name == name_db_full() || name == name_db() {
            if toks.len() == 8 {
                match (spec_parse_i32(toks[1]), spec_parse_i32(toks[2]), spec_parse_i32(
                    toks[3],
                ), spec_parse_i32(toks[4]), spec_parse_i32(toks[5]), spec_parse_i32(toks[6]),
                    spec_parse_bool(toks[7])) {
                    (Some(x0), Some(y0), Some(x1), Some(y1), Some(x2), Some(y2), Some(c)) =>
                        Some(Command::Curve {
                        x0: x0 as i32,
                        y0: y0 as i32,
                        x1: x1 as i32,
                        y1: y1 as i32,
                        x2: x2 as i32,
                        y2: y2 as i32,
                        c,
                    }),
                    _ => None,
                }
            } else {
                None
            }
        } else if name == name_dc_full() || name == name_dc() {
            if toks.len() == 5 {
                match (spec_parse_i32(toks[1]), spec_parse_i32(toks[2]), spec_parse_i32(
                    toks[3],
                ), spec_parse_bool(toks[4])) {
                    (Some(x), Some(y), Some(r), Some(c)) => Some(Command::Circle {
                        x: x as i32,
                        y: y as i32,
                        r: r as i32,
                        c,
                    }),
                    _ => None,
                }
            } else {
                None
            }
        } else if name == name_dco_full() || name == name_dco() {
            if toks.len() == 5 {
                match (spec_parse_i32(toks[1]), spec_parse_i32(toks[2]), spec_parse_i32(
                    toks[3],
                ), spec_parse_bool(toks[4])) {
                    (Some(x), Some(y), Some(r), Some(c)) => Some(Command::CircleOutline {
                        x: x as i32,
                        y: y as i32,
                        r: r as i32,
                        c,
                    }),
                    _ => None,
                }
            } else {
                None
            }
        } else if name == name_invert() || name == name_i() {
            if toks.len() == 1 {
                Some(Command::Invert)
            } else {
                None
            }
        } else {
            None
        }
    }
}

/// A line whose name is a known command but whose argument list is wrong:
/// reported with the command usage.
pub open spec fn is_usage_toks(toks: Seq<Seq<u8>>) -> bool {
    &&& toks.len() > 0
    &&& (known_arg_name(toks[0]) || (zero_arg_name(toks[0]) && toks.len() != 1))
    &&& spec_cmd_of(toks) is None
}

/// A nonempty line whose name is not recognized at all.
pub open spec fn is_unrec_toks(toks: Seq<Seq<u8>>) -> bool {
    &&& toks.len() > 0
    &&& !known_arg_name(toks[0])
    &&& !zero_arg_name(toks[0])
}

/// The grid a command leaves behind.
pub open spec fn spec_apply(g: Seq<Seq<bool>>, cmd: Command) -> Seq<Seq<bool>> {
    match cmd {
        Command::Write { x, y, c } => spec_write(g, x as int, y as int, c),
        Command::Fill { x, y, c } => spec_flood(g, x as int, y as int, c),
        Command::Resize { w, h } => spec_resize(g, w as int, h as int),
        Command::Clear { c } => spec_clear(g, c),
        Command::Rect { x, y, w, h, c } => spec_rect(g, x as int, y as int, w as int, h as int,
            c),
        Command::RectOutline { x, y, w, h, c } => spec_rect_outline(g, x as int, y as int,
            w as int, h as int, c),
        Command::Line { x1, y1, x2, y2, c } => spec_line(g, x1 as int, y1 as int, x2 as int,
            y2 as int, c),
        Command::Curve { x0, y0, x1, y1, x2, y2, c } => spec_curve(g, x0 as int, y0 as int,
            x1 as int, y1 as int, x2 as int, y2 as int, c),
        Command::Circle { x, y, r, c } => spec_circle(g, x as int, y as int, r as int, c),
        Command::CircleOutline { x, y, r, c } => spec_circle_outline(g, x as int, y as int,
            r as int, c),
        Command::Invert => spec_invert(g),
    }
}

/// The recoverable warning a command raises, if any.
pub open spec fn spec_warn(cmd: Command) -> Option<Warn> {
    match cmd {
        Command::Write { x, y, .. } => if x < 0 || y < 0 { Some(Warn::Coords) } else { None },
        Command::Fill { x, y, .. } => if x < 0 || y < 0 { Some(Warn::Coords) } else { None },
        Command::Resize { w, h } => if w < 1 || h < 1 { Some(Warn::Dims) } else { None },
        Command::Clear { .. } => None,
        Command::Rect { x, y, w, h, .. } => if x < 0 || y < 0 { Some(Warn::Coords) } else if w
            < 1 || h < 1 { Some(Warn::Dims) } else { None },
        Command::RectOutline { .. } => None,
        Command::Line { .. } => None,
        Command::Curve { .. } => None,
        Command::Circle { x, y, r, .. } => if x < 0 || y < 0 { Some(Warn::Coords) } else if r
            < 0 { Some(Warn::Radius) } else { None },
        Command::CircleOutline { x, y, r, .. } => if x < 0 || y < 0 { Some(Warn::Coords) }
            else if r < 0 { Some(Warn::Radius) } else { None },
        Command::Invert => None,
    }
}

/// Every token of an accepted command line is a command name, an integer
/// or a boolean, none of which contains a semicolon.
#[verifier::rlimit(100)]
pub proof fn lemma_cmd_tokens_no_semi(toks: Seq<Seq<u8>>)
    requires
        spec_cmd_of(toks) is Some,
    ensures
        forall|k: int| 0 <= k < toks.len() ==> no_semi(#[trigger] toks[k]),
{
    lemma_names_no_semi();
    let name = toks[0];
    if name == name_write() || name == name_w() {
        lemma_int_token_no_semi(toks[1]);
        lemma_int_token_no_semi(toks[2]);
        lemma_bool_token_no_semi(toks[3]);
    } else if name == name_fill() || name == name_f() {
        lemma_int_token_no_semi(toks[1]);
        lemma_int_token_no_semi(toks[2]);
        lemma_bool_token_no_semi(toks[3]);
    } else if name == name_resize() || name == name_r() {
        lemma_int_token_no_semi(toks[1]);
        lemma_int_token_no_semi(toks[2]);
    } else if name == name_clear() || name == name_c() {
        lemma_bool_token_no_semi(toks[1]);
    } else if name == name_dr_full() || name == name_dr() {
        lemma_int_token_no_semi(toks[1]);
        lemma_int_token_no_semi(toks[2]);
        lemma_int_token_no_semi(toks[3]);
        lemma_int_token_no_semi(toks[4]);
        lemma_bool_token_no_semi(toks[5]);
    } else if name == name_dro_full() || name == name_dro() {
        lemma_int_token_no_semi(toks[1]);
        lemma_int_token_no_semi(toks[2]);
        lemma_int_token_no_semi(toks[3]);
        lemma_int_token_no_semi(toks[4]);
        lemma_bool_token_no_semi(toks[5]);
    } else if name == name_dl_full() || name == name_dl() {
        lemma_int_token_no_semi(toks[1]);
        lemma_int_token_no_semi(toks[2]);
        lemma_int_token_no_semi(toks[3]);
        lemma_int_token_no_semi(toks[4]);
        lemma_bool_token_no_semi(toks[5]);
    } else if name == name_db_full() || name == name_db() {
        lemma_int_token_no_semi(toks[1]);
        lemma_int_token_no_semi(toks[2]);
        lemma_int_token_no_semi(toks[3]);
        lemma_int_token_no_semi(toks[4]);
        lemma_int_token_no_semi(toks[5]);
        lemma_int_token_no_semi(toks[6]);
        lemma_bool_token_no_semi(toks[7]);
    } else if name == name_dc_full() || name == name_dc() {
        lemma_int_token_no_semi(toks[1]);
        lemma_int_token_no_semi(toks[2]);
        lemma_int_token_no_semi(toks[3]);
        lemma_bool_token_no_semi(toks[4]);
    } else if name == name_dco_full() || name == name_dco() {
        lemma_int_token_no_semi(toks[1]);
        lemma_int_token_no_semi(toks[2]);
        lemma_int_token_no_semi(toks[3]);
        lemma_bool_token_no_semi(toks[4]);
    } else {
    }
}

fn copy_bytes(t: &Vec<u8>) -> (r: Vec<u8>)
    ensures
        r@ == t@,
{
    let mut r: Vec<u8> = Vec::new();
    let mut i: usize = 0;
    while i < t.len()
        invariant
            0 <= i <= t@.len(),
            r@ == t@.take(i as int),
        decreases t@.len() - i,
    {
        r.push(t[i]);
        proof {
            assert(r@ =~= t@.take(i as int + 1));
        }
        i = i + 1;
    }
    proof {
        assert(r@ =~= t@);
    }
    r
}

/// Dispatch a tokenized line to its command, or classify the failure.
#[verifier::rlimit(100)]
pub fn parse(toks: &Vec<Vec<u8>>) -> (p: Parsed)
    ensures
        match p {
            Parsed::Op { cmd } => spec_cmd_of(views(toks@)) == Some(cmd),
            Parsed::Help => is_help_toks(views(toks@)),
            Parsed::Dump => is_dump_toks(views(toks@)),
            Parsed::Quit => is_quit_toks(views(toks@)),
            Parsed::Empty => views(toks@).len() == 0,
            Parsed::Usage { name } => is_usage_toks(views(toks@)) && name@ == views(toks@)[0],
            Parsed::Unrecognized { name } => is_unrec_toks(views(toks@))
                && name@ == views(toks@)[0],
        },
{
    proof {
        lemma_names_distinct();
    }
    let ghost vt = views(toks@);
    if toks.len() == 0 {
        return Parsed::Empty;
    }
    let t0 = &toks[0];
    proof {
        assert(vt[0] == toks@[0]@);
    }
    if bytes_eq(t0, &name_help_vec()) || bytes_eq(t0, &name_h_vec()) {
        if toks.len() == 1 {
            return Parsed::Help;
        }
        return Parsed::Usage { name: copy_bytes(t0) };
    }
    if bytes_eq(t0, &name_dump_vec()) || bytes_eq(t0, &name_d_vec()) {
        if toks.len() == 1 {
            return Parsed::Dump;
        }
        return Parsed::Usage { name: copy_bytes(t0) };
    }
    if bytes_eq(t0, &name_quit_vec()) || bytes_eq(t0, &name_q_vec()) {
        if toks.len() == 1 {
            return Parsed::Quit;
        }
        return Parsed::Usage { name: copy_bytes(t0) };
    }
    if bytes_eq(t0, &name_invert_vec()) || bytes_eq(t0, &name_i_vec()) {
        if toks.len() == 1 {
            return Parsed::Op { cmd: Command::Invert };
        }
        return Parsed::Usage { name: copy_bytes(t0) };
    }
    if bytes_eq(t0, &name_write_vec()) || bytes_eq(t0, &name_w_vec()) {
        if toks.len() == 4 {
            let x = parse_i32_tok(&toks[1]);
            let y = parse_i32_tok(&toks[2]);
            let c = parse_bool_tok(&toks[3]);
            if let (Some(x), Some(y), Some(c)) = (x, y, c) {
                return Parsed::Op { cmd: Command::Write { x, y, c } };
            }
        }
        return Parsed::Usage { name: copy_bytes(t0) };
    }
    if bytes_eq(t0, &name_fill_vec()) || bytes_eq(t0, &name_f_vec()) {
        if toks.len() == 4 {
            let x = parse_i32_tok(&toks[1]);
            let y = parse_i32_tok(&toks[2]);
            let c = parse_bool_tok(&toks[3]);
            if let (Some(x), Some(y), Some(c)) = (x, y, c) {
                return Parsed::Op { cmd: Command::Fill { x, y, c } };
            }
        }
        return Parsed::Usage { name: copy_bytes(t0) };
    }
    if bytes_eq(t0, &name_resize_vec()) || bytes_eq(t0, &name_r_vec()) {
        if toks.len() == 3 {
            let w = parse_i32_tok(&toks[1]);
            let h = parse_i32_tok(&toks[2]);
            if let (Some(w), Some(h)) = (w, h) {
                return Parsed::Op { cmd: Command::Resize { w, h } };
            }
        }
        return Parsed::Usage { name: copy_bytes(t0) };
    }
    if bytes_eq(t0, &name_clear_vec()) || bytes_eq(t0, &name_c_vec()) {
        if toks.len() == 2 {
            let c = parse_bool_tok(&toks[1]);
            if let Some(c) = c {
                return Parsed::Op { cmd: Command::Clear { c } };
            }
        }
        return Parsed::Usage { name: copy_bytes(t0) };
    }
    if bytes_eq(t0, &name_dr_full_vec()) || bytes_eq(t0, &name_dr_vec()) {
        if toks.len() == 6 {
            let x = parse_i32_tok(&toks[1]);
            let y = parse_i32_tok(&toks[2]);
            let w = parse_i32_tok(&toks[3]);
            let h = parse_i32_tok(&toks[4]);
            let c = parse_bool_tok(&toks[5]);
            if let (Some(x), Some(y), Some(w), Some(h), Some(c)) = (x, y, w, h, c) {
                return Parsed::Op { cmd: Command::Rect { x, y, w, h, c } };
            }
        }
        return Parsed::Usage { name: copy_bytes(t0) };
    }
    if bytes_eq(t0, &name_dro_full_vec()) || bytes_eq(t0, &name_dro_vec()) {
        if toks.len() == 6 {
            let x = parse_i32_tok(&toks[1]);
            let y = parse_i32_tok(&toks[2]);
            let w = parse_i32_tok(&toks[3]);
            let h = parse_i32_tok(&toks[4]);
            let c = parse_bool_tok(&toks[5]);
            if let (Some(x), Some(y), Some(w), Some(h), Some(c)) = (x, y, w, h, c) {
                return Parsed::Op { cmd: Command::RectOutline { x, y, w, h, c } };
            }
        }
        return Parsed::Usage { name: copy_bytes(t0) };
    }
    if bytes_eq(t0, &name_dl_full_vec()) || bytes_eq(t0, &name_dl_vec()) {
        if toks.len() == 6 {
            let x1 = parse_i32_tok(&toks[1]);
            let y1 = parse_i32_tok(&toks[2]);
            let x2 = parse_i32_tok(&toks[3]);
            let y2 = parse_i32_tok(&toks[4]);
            let c = parse_bool_tok(&toks[5]);
            if let (Some(x1), Some(y1), Some(x2), Some(y2), Some(c)) = (x1, y1, x2, y2, c) {
                return Parsed::Op { cmd: Command::Line { x1, y1, x2, y2, c } };
            }
        }
        return Parsed::Usage { name: copy_bytes(t0) };
    }
    if bytes_eq(t0, &name_db_full_vec()) || bytes_eq(t0, &name_db_vec()) {
        if toks.len() == 8 {
            let x0 = parse_i32_tok(&toks[1]);
            let y0 = parse_i32_tok(&toks[2]);
            let x1 = parse_i32_tok(&toks[3]);
            let y1 = parse_i32_tok(&toks[4]);
            let x2 = parse_i32_tok(&toks[5]);
            let y2 = parse_i32_tok(&toks[6]);
            let c = parse_bool_tok(&toks[7]);
            if let (Some(x0), Some(y0), Some(x1), Some(y1), Some(x2), Some(y2), Some(c)) = (x0,
                y0, x1, y1, x2, y2, c) {
                return Parsed::Op { cmd: Command::Curve { x0, y0, x1, y1, x2, y2, c } };
            }
        }
        return Parsed::Usage { name: copy_bytes(t0) };
    }
    if bytes_eq(t0, &name_dc_full_vec()) || bytes_eq(t0, &name_dc_vec()) {
        if toks.len() == 5 {
            let x = parse_i32_tok(&toks[1]);
            let y = parse_i32_tok(&toks[2]);
            let r = parse_i32_tok(&toks[3]);
            let c = parse_bool_tok(&toks[4]);
            if let (Some(x), Some(y), Some(r), Some(c)) = (x, y, r, c) {
                return Parsed::Op { cmd: Command::Circle { x, y, r, c } };
            }
        }
        return Parsed::Usage { name: copy_bytes(t0) };
    }
    if bytes_eq(t0, &name_dco_full_vec()) || bytes_eq(t0, &name_dco_vec()) {
        if toks.len() == 5 {
            let x = parse_i32_tok(&toks[1]);
            let y = parse_i32_tok(&toks[2]);
            let r = parse_i32_tok(&toks[3]);
            let c = parse_bool_tok(&toks[4]);
            if let (Some(x), Some(y), Some(r), Some(c)) = (x, y, r, c) {
                return Parsed::Op { cmd: Command::CircleOutline { x, y, r, c } };
            }
        }
        return Parsed::Usage { name: copy_bytes(t0) };
    }
    Parsed::Unrecognized { name: copy_bytes(t0) }
}

/// Apply one command to the image, reporting the recoverable warning it
/// raises, if any.
pub fn execute(img: &mut Image, cmd: Command) -> (w: Option<Warn>)
    requires
        old(img).wf(),
    ensures
        final(img).wf(),
        final(img)@ == spec_apply(old(img)@, cmd),
        w == spec_warn(cmd),
{
    match cmd {
        Command::Write { x, y, c } => {
            let ok = img.write_pixel(x, y, c);
            if ok { None } else { Some(Warn::Coords) }
        },
        Command::Fill { x, y, c } => {
            let ok = img.flood_fill(x, y, c);
            if ok { None } else { Some(Warn::Coords) }
        },
        Command::Resize { w, h } => {
            let ok = img.resize(w, h);
            if ok { None } else { Some(Warn::Dims) }
        },
        Command::Clear { c } => {
            img.clear(c);
            None
        },
        Command::Rect { x, y, w, h, c } => img.draw_rectangle(x, y, w, h, c),
        Command::RectOutline { x, y, w, h, c } => {
            img.draw_rectangle_outline(x, y, w, h, c);
            None
        },
        Command::Line { x1, y1, x2, y2, c } => {
            img.draw_line(x1, y1, x2, y2, c);
            None
        },
        Command::Curve { x0, y0, x1, y1, x2, y2, c } => {
            img.draw_curve(x0, y0, x1, y1, x2, y2, c);
            None
        },
        Command::Circle { x, y, r, c } => img.draw_circle(x, y, r, c),
        Command::CircleOutline { x, y, r, c } => img.draw_circle_outline(x, y, r, c),
        Command::Invert => {
            img.invert();
            None
        },
    }
}

} // verus!
