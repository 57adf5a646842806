//! The fixed text pieces of the alert pipeline, as UTF-8 byte sequences.
//!
//! Each piece is given twice: a spec function naming its bytes, used by
//! contracts, and an executable builder proved to return exactly those
//! bytes. Presentation prefixes that are not plain ASCII are spelled out
//! byte by byte, with the decoded text in the doc comment.

use vstd::prelude::*;

verus! {

/// The bytes of `"Northwest "`.
pub open spec fn dir_northwest() -> Seq<u8> {
    seq![78u8, 111, 114, 116, 104, 119, 101, 115, 116, 32]
}

pub fn dir_northwest_bytes() -> (r: Vec<u8>)
    ensures
        r@ == dir_northwest(),
{
    let mut v: Vec<u8> = Vec::new();
    v.push(78);
    v.push(111);
    v.push(114);
    v.push(116);
    v.push(104);
    v.push(119);
    v.push(101);
    v.push(115);
    v.push(116);
    v.push(32);
    proof { assert(v@ =~= dir_northwest()); }
    v
}

/// The bytes of `"North "`.
pub open spec fn dir_north() -> Seq<u8> {
    seq![78u8, 111, 114, 116, 104, 32]
}

pub fn dir_north_bytes() -> (r: Vec<u8>)
    ensures
        r@ == dir_north(),
{
    let mut v: Vec<u8> = Vec::new();
    v.push(78);
    v.push(111);
    v.push(114);
    v.push(116);
    v.push(104);
    v.push(32);
    proof { assert(v@ =~= dir_north()); }
    v
}

/// The bytes of `"Northeast "`.
pub open spec fn dir_northeast() -> Seq<u8> {
    seq![78u8, 111, 114, 116, 104, 101, 97, 115, 116, 32]
}

pub fn dir_northeast_bytes() -> (r: Vec<u8>)
    ensures
        r@ == dir_northeast(),
{
    let mut v: Vec<u8> = Vec::new();
    v.push(78);
    v.push(111);
    v.push(114);
    v.push(116);
    v.push(104);
    v.push(101);
    v.push(97);
    v.push(115);
    v.push(116);
    v.push(32);
    proof { assert(v@ =~= dir_northeast()); }
    v
}

/// The bytes of `"West "`.
pub open spec fn dir_west() -> Seq<u8> {
    seq![87u8, 101, 115, 116, 32]
}

pub fn dir_west_bytes() -> (r: Vec<u8>)
    ensures
        r@ == dir_west(),
{
    let mut v: Vec<u8> = Vec::new();
    v.push(87);
    v.push(101);
    v.push(115);
    v.push(116);
    v.push(32);
    proof { assert(v@ =~= dir_west()); }
    v
}

/// The bytes of `"Central "`.
pub open spec fn dir_central() -> Seq<u8> {
    seq![67u8, 101, 110, 116, 114, 97, 108, 32]
}

pub fn dir_central_bytes() -> (r: Vec<u8>)
    ensures
        r@ == dir_central(),
{
    let mut v: Vec<u8> = Vec::new();
    v.push(67);
    v.push(101);
    v.push(110);
    v.push(116);
    v.push(114);
    v.push(97);
    v.push(108);
    v.push(32);
    proof { assert(v@ =~= dir_central()); }
    v
}

/// The bytes of `"East "`.
pub open spec fn dir_east() -> Seq<u8> {
    seq![69u8, 97, 115, 116, 32]
}

pub fn dir_east_bytes() -> (r: Vec<u8>)
    ensures
        r@ == dir_east(),
{
    let mut v: Vec<u8> = Vec::new();
    v.push(69);
    v.push(97);
    v.push(115);
    v.push(116);
    v.push(32);
    proof { assert(v@ =~= dir_east()); }
    v
}

/// The bytes of `"Southwest "`.
pub open spec fn dir_southwest() -> Seq<u8> {
    seq![83u8, 111, 117, 116, 104, 119, 101, 115, 116, 32]
}

pub fn dir_southwest_bytes() -> (r: Vec<u8>)
    ensures
        r@ == dir_southwest(),
{
    let mut v: Vec<u8> = Vec::new();
    v.push(83);
    v.push(111);
    v.push(117);
    v.push(116);
    v.push(104);
    v.push(119);
    v.push(101);
    v.push(115);
    v.push(116);
    v.push(32);
    proof { assert(v@ =~= dir_southwest()); }
    v
}

/// The bytes of `"South "`.
pub open spec fn dir_south() -> Seq<u8> {
    seq![83u8, 111, 117, 116, 104, 32]
}

pub fn dir_south_bytes() -> (r: Vec<u8>)
    ensures
        r@ == dir_south(),
{
    let mut v: Vec<u8> = Vec::new();
    v.push(83);
    v.push(111);
    v.push(117);
    v.push(116);
    v.push(104);
    v.push(32);
    proof { assert(v@ =~= dir_south()); }
    v
}

/// The bytes of `"Southeast "`.
pub open spec fn dir_southeast() -> Seq<u8> {
    seq![83u8, 111, 117, 116, 104, 101, 97, 115, 116, 32]
}

pub fn dir_southeast_bytes() -> (r: Vec<u8>)
    ensures
        r@ == dir_southeast(),
{
    let mut v: Vec<u8> = Vec::new();
    v.push(83);
    v.push(111);
    v.push(117);
    v.push(116);
    v.push(104);
    v.push(101);
    v.push(97);
    v.push(115);
    v.push(116);
    v.push(32);
    proof { assert(v@ =~= dir_southeast()); }
    v
}

/// The bytes of `", Issued By: "`.
pub open spec fn issued_by() -> Seq<u8> {
    seq![44u8, 32, 73, 115, 115, 117, 101, 100, 32, 66, 121, 58, 32]
}

pub fn issued_by_bytes() -> (r: Vec<u8>)
    ensures
        r@ == issued_by(),
{
    let mut v: Vec<u8> = Vec::new();
    v.push(44);
    v.push(32);
    v.push(73);
    v.push(115);
    v.push(115);
    v.push(117);
    v.push(101);
    v.push(100);
    v.push(32);
    v.push(66);
    v.push(121);
    v.push(58);
    v.push(32);
    proof { assert(v@ =~= issued_by()); }
    v
}

/// The bytes of `" from "`.
pub open spec fn from_sep() -> Seq<u8> {
    seq![32u8, 102, 114, 111, 109, 32]
}

pub fn from_sep_bytes() -> (r: Vec<u8>)
    ensures
        r@ == from_sep(),
{
    let mut v: Vec<u8> = Vec::new();
    v.push(32);
    v.push(102);
    v.push(114);
    v.push(111);
    v.push(109);
    v.push(32);
    proof { assert(v@ =~= from_sep()); }
    v
}

/// The bytes of `"\U0001f4d6Received "`.
pub open spec fn received_test() -> Seq<u8> {
    seq![240u8, 159, 147, 150, 82, 101, 99, 101, 105, 118, 101, 100, 32]
}

pub fn received_test_bytes() -> (r: Vec<u8>)
    ensures
        r@ == received_test(),
{
    let mut v: Vec<u8> = Vec::new();
    v.push(240);
    v.push(159);
    v.push(147);
    v.push(150);
    v.push(82);
    v.push(101);
    v.push(99);
    v.push(101);
    v.push(105);
    v.push(118);
    v.push(101);
    v.push(100);
    v.push(32);
    proof { assert(v@ =~= received_test()); }
    v
}

/// The bytes of `"\U0001f4df"`.
pub open spec fn prefix_statement() -> Seq<u8> {
    seq![240u8, 159, 147, 159]
}

pub fn prefix_statement_bytes() -> (r: Vec<u8>)
    ensures
        r@ == prefix_statement(),
{
    let mut v: Vec<u8> = Vec::new();
    v.push(240);
    v.push(159);
    v.push(147);
    v.push(159);
    proof { assert(v@ =~= prefix_statement()); }
    v
}

/// The bytes of `"\u26a0\ufe0f"`.
pub open spec fn prefix_caution() -> Seq<u8> {
    seq![226u8, 154, 160, 239, 184, 143]
}

pub fn prefix_caution_bytes() -> (r: Vec<u8>)
    ensures
        r@ == prefix_caution(),
{
    let mut v: Vec<u8> = Vec::new();
    v.push(226);
    v.push(154);
    v.push(160);
    v.push(239);
    v.push(184);
    v.push(143);
    proof { assert(v@ =~= prefix_caution()); }
    v
}

/// The bytes of `"\U0001f6a8"`.
pub open spec fn prefix_urgent() -> Seq<u8> {
    seq![240u8, 159, 154, 168]
}

pub fn prefix_urgent_bytes() -> (r: Vec<u8>)
    ensures
        r@ == prefix_urgent(),
{
    let mut v: Vec<u8> = Vec::new();
    v.push(240);
    v.push(159);
    v.push(154);
    v.push(168);
    proof { assert(v@ =~= prefix_urgent()); }
    v
}

/// The bytes of `" Nationwide Alert"`.
pub open spec fn nationwide() -> Seq<u8> {
    seq![32u8, 78, 97, 116, 105, 111, 110, 119, 105, 100, 101, 32, 65, 108, 101, 114, 116]
}

pub fn nationwide_bytes() -> (r: Vec<u8>)
    ensures
        r@ == nationwide(),
{
    let mut v: Vec<u8> = Vec::new();
    v.push(32);
    v.push(78);
    v.push(97);
    v.push(116);
    v.push(105);
    v.push(111);
    v.push(110);
    v.push(119);
    v.push(105);
    v.push(100);
    v.push(101);
    v.push(32);
    v.push(65);
    v.push(108);
    v.push(101);
    v.push(114);
    v.push(116);
    proof { assert(v@ =~= nationwide()); }
    v
}

/// The bytes of `", Location: "`.
pub open spec fn location_single() -> Seq<u8> {
    seq![44u8, 32, 76, 111, 99, 97, 116, 105, 111, 110, 58, 32]
}

pub fn location_single_bytes() -> (r: Vec<u8>)
    ensures
        r@ == location_single(),
{
    let mut v: Vec<u8> = Vec::new();
    v.push(44);
    v.push(32);
    v.push(76);
    v.push(111);
    v.push(99);
    v.push(97);
    v.push(116);
    v.push(105);
    v.push(111);
    v.push(110);
    v.push(58);
    v.push(32);
    proof { assert(v@ =~= location_single()); }
    v
}

/// The bytes of `", Locations: "`.
pub open spec fn location_multi() -> Seq<u8> {
    seq![44u8, 32, 76, 111, 99, 97, 116, 105, 111, 110, 115, 58, 32]
}

pub fn location_multi_bytes() -> (r: Vec<u8>)
    ensures
        r@ == location_multi(),
{
    let mut v: Vec<u8> = Vec::new();
    v.push(44);
    v.push(32);
    v.push(76);
    v.push(111);
    v.push(99);
    v.push(97);
    v.push(116);
    v.push(105);
    v.push(111);
    v.push(110);
    v.push(115);
    v.push(58);
    v.push(32);
    proof { assert(v@ =~= location_multi()); }
    v
}

/// The bytes of `", "`.
pub open spec fn list_sep() -> Seq<u8> {
    seq![44u8, 32]
}

pub fn list_sep_bytes() -> (r: Vec<u8>)
    ensures
        r@ == list_sep(),
{
    let mut v: Vec<u8> = Vec::new();
    v.push(44);
    v.push(32);
    proof { assert(v@ =~= list_sep()); }
    v
}

/// The bytes of `"Error"`.
pub open spec fn error_marker() -> Seq<u8> {
    seq![69u8, 114, 114, 111, 114]
}

pub fn error_marker_bytes() -> (r: Vec<u8>)
    ensures
        r@ == error_marker(),
{
    let mut v: Vec<u8> = Vec::new();
    v.push(69);
    v.push(114);
    v.push(114);
    v.push(111);
    v.push(114);
    proof { assert(v@ =~= error_marker()); }
    v
}

/// The bytes of `"Connected to radio"`.
pub open spec fn connected_line() -> Seq<u8> {
    seq![67u8, 111, 110, 110, 101, 99, 116, 101, 100, 32, 116, 111, 32, 114, 97, 100, 105, 111]
}

pub fn connected_line_bytes() -> (r: Vec<u8>)
    ensures
        r@ == connected_line(),
{
    let mut v: Vec<u8> = Vec::new();
    v.push(67);
    v.push(111);
    v.push(110);
    v.push(110);
    v.push(101);
    v.push(99);
    v.push(116);
    v.push(101);
    v.push(100);
    v.push(32);
    v.push(116);
    v.push(111);
    v.push(32);
    v.push(114);
    v.push(97);
    v.push(100);
    v.push(105);
    v.push(111);
    proof { assert(v@ =~= connected_line()); }
    v
}

} // verus!
