//! Fixed tokens of the manifest surface syntax, as character vectors.
//!
//! Spec-mode character sequences cannot be written as string literals, so each
//! token is a named pair: a spec sequence and an executable builder proved to
//! produce it.
use vstd::prelude::*;

verus! {

pub open spec fn spec_version() -> Seq<char> {
    seq!['v', 'e', 'r', 's', 'i', 'o', 'n']
}

/// The token `version`.
pub fn tok_version() -> (r: Vec<char>)
    ensures
        r@ == spec_version(),
{
    let v: Vec<char> = vec!['v', 'e', 'r', 's', 'i', 'o', 'n'];
    v
}

pub open spec fn spec_path() -> Seq<char> {
    seq!['p', 'a', 't', 'h']
}

/// The token `path`.
pub fn tok_path() -> (r: Vec<char>)
    ensures
        r@ == spec_path(),
{
    let v: Vec<char> = vec!['p', 'a', 't', 'h'];
    v
}

pub open spec fn spec_git() -> Seq<char> {
    seq!['g', 'i', 't']
}

/// The token `git`.
pub fn tok_git() -> (r: Vec<char>)
    ensures
        r@ == spec_git(),
{
    let v: Vec<char> = vec!['g', 'i', 't'];
    v
}

pub open spec fn spec_rev() -> Seq<char> {
    seq!['r', 'e', 'v']
}

/// The token `rev`.
pub fn tok_rev() -> (r: Vec<char>)
    ensures
        r@ == spec_rev(),
{
    let v: Vec<char> = vec!['r', 'e', 'v'];
    v
}

pub open spec fn spec_features() -> Seq<char> {
    seq!['f', 'e', 'a', 't', 'u', 'r', 'e', 's']
}

/// The token `features`.
pub fn tok_features() -> (r: Vec<char>)
    ensures
        r@ == spec_features(),
{
    let v: Vec<char> = vec!['f', 'e', 'a', 't', 'u', 'r', 'e', 's'];
    v
}

pub open spec fn spec_optional() -> Seq<char> {
    seq!['o', 'p', 't', 'i', 'o', 'n', 'a', 'l']
}

/// The token `optional`.
pub fn tok_optional() -> (r: Vec<char>)
    ensures
        r@ == spec_optional(),
{
    let v: Vec<char> = vec!['o', 'p', 't', 'i', 'o', 'n', 'a', 'l'];
    v
}

pub open spec fn spec_default_features() -> Seq<char> {
    seq!['d', 'e', 'f', 'a', 'u', 'l', 't', '-', 'f', 'e', 'a', 't', 'u', 'r', 'e', 's']
}

/// The token `default-features`.
pub fn tok_default_features() -> (r: Vec<char>)
    ensures
        r@ == spec_default_features(),
{
    let v: Vec<char> = vec!['d', 'e', 'f', 'a', 'u', 'l', 't', '-', 'f', 'e', 'a', 't', 'u', 'r', 'e', 's'];
    v
}

pub open spec fn spec_true_word() -> Seq<char> {
    seq!['t', 'r', 'u', 'e']
}

/// The token `true`.
pub fn tok_true_word() -> (r: Vec<char>)
    ensures
        r@ == spec_true_word(),
{
    let v: Vec<char> = vec!['t', 'r', 'u', 'e'];
    v
}

pub open spec fn spec_false_word() -> Seq<char> {
    seq!['f', 'a', 'l', 's', 'e']
}

/// The token `false`.
pub fn tok_false_word() -> (r: Vec<char>)
    ensures
        r@ == spec_false_word(),
{
    let v: Vec<char> = vec!['f', 'a', 'l', 's', 'e'];
    v
}

pub open spec fn spec_dependencies() -> Seq<char> {
    seq!['d', 'e', 'p', 'e', 'n', 'd', 'e', 'n', 'c', 'i', 'e', 's']
}

/// The token `dependencies`.
pub fn tok_dependencies() -> (r: Vec<char>)
    ensures
        r@ == spec_dependencies(),
{
    let v: Vec<char> = vec!['d', 'e', 'p', 'e', 'n', 'd', 'e', 'n', 'c', 'i', 'e', 's'];
    v
}

pub open spec fn spec_dev_dependencies() -> Seq<char> {
    seq!['d', 'e', 'v', '-', 'd', 'e', 'p', 'e', 'n', 'd', 'e', 'n', 'c', 'i', 'e', 's']
}

/// The token `dev-dependencies`.
pub fn tok_dev_dependencies() -> (r: Vec<char>)
    ensures
        r@ == spec_dev_dependencies(),
{
    let v: Vec<char> = vec!['d', 'e', 'v', '-', 'd', 'e', 'p', 'e', 'n', 'd', 'e', 'n', 'c', 'i', 'e', 's'];
    v
}

pub open spec fn spec_build_dependencies() -> Seq<char> {
    seq!['b', 'u', 'i', 'l', 'd', '-', 'd', 'e', 'p', 'e', 'n', 'd', 'e', 'n', 'c', 'i', 'e', 's']
}

/// The token `build-dependencies`.
pub fn tok_build_dependencies() -> (r: Vec<char>)
    ensures
        r@ == spec_build_dependencies(),
{
    let v: Vec<char> = vec!['b', 'u', 'i', 'l', 'd', '-', 'd', 'e', 'p', 'e', 'n', 'd', 'e', 'n', 'c', 'i', 'e', 's'];
    v
}

pub open spec fn spec_eq_sep() -> Seq<char> {
    seq![' ', '=', ' ']
}

/// The token ` = `.
pub fn tok_eq_sep() -> (r: Vec<char>)
    ensures
        r@ == spec_eq_sep(),
{
    let v: Vec<char> = vec![' ', '=', ' '];
    v
}

pub open spec fn spec_comma_sep() -> Seq<char> {
    seq![',', ' ']
}

/// The token `, `.
pub fn tok_comma_sep() -> (r: Vec<char>)
    ensures
        r@ == spec_comma_sep(),
{
    let v: Vec<char> = vec![',', ' '];
    v
}

pub open spec fn spec_open_brace() -> Seq<char> {
    seq![' ', '=', ' ', '{', ' ']
}

/// The token ` = { `.
pub fn tok_open_brace() -> (r: Vec<char>)
    ensures
        r@ == spec_open_brace(),
{
    let v: Vec<char> = vec![' ', '=', ' ', '{', ' '];
    v
}

pub open spec fn spec_close_brace() -> Seq<char> {
    seq![' ', '}']
}

/// The token ` }`.
pub fn tok_close_brace() -> (r: Vec<char>)
    ensures
        r@ == spec_close_brace(),
{
    let v: Vec<char> = vec![' ', '}'];
    v
}

pub open spec fn spec_open_bracket() -> Seq<char> {
    seq![' ', '=', ' ', '[']
}

/// The token ` = [`.
pub fn tok_open_bracket() -> (r: Vec<char>)
    ensures
        r@ == spec_open_bracket(),
{
    let v: Vec<char> = vec![' ', '=', ' ', '['];
    v
}

pub open spec fn spec_close_bracket() -> Seq<char> {
    seq![']']
}

/// The token `]`.
pub fn tok_close_bracket() -> (r: Vec<char>)
    ensures
        r@ == spec_close_bracket(),
{
    let v: Vec<char> = vec![']'];
    v
}

pub open spec fn spec_refs_word() -> Seq<char> {
    seq!['r', 'e', 'f', 's']
}

/// The token `refs`.
pub fn tok_refs_word() -> (r: Vec<char>)
    ensures
        r@ == spec_refs_word(),
{
    let v: Vec<char> = vec!['r', 'e', 'f', 's'];
    v
}

pub open spec fn spec_remotes_word() -> Seq<char> {
    seq!['r', 'e', 'm', 'o', 't', 'e', 's']
}

/// The token `remotes`.
pub fn tok_remotes_word() -> (r: Vec<char>)
    ensures
        r@ == spec_remotes_word(),
{
    let v: Vec<char> = vec!['r', 'e', 'm', 'o', 't', 'e', 's'];
    v
}

pub open spec fn spec_upstream_word() -> Seq<char> {
    seq!['u', 'p', 's', 't', 'r', 'e', 'a', 'm']
}

/// The token `upstream`.
pub fn tok_upstream_word() -> (r: Vec<char>)
    ensures
        r@ == spec_upstream_word(),
{
    let v: Vec<char> = vec!['u', 'p', 's', 't', 'r', 'e', 'a', 'm'];
    v
}

pub open spec fn spec_origin_word() -> Seq<char> {
    seq!['o', 'r', 'i', 'g', 'i', 'n']
}

/// The token `origin`.
pub fn tok_origin_word() -> (r: Vec<char>)
    ensures
        r@ == spec_origin_word(),
{
    let v: Vec<char> = vec!['o', 'r', 'i', 'g', 'i', 'n'];
    v
}

} // verus!
