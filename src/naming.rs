//! Names for one-off runs: the template's name (or a fixed prefix) followed by
//! a random suffix of six lowercase letters and digits.

use vstd::prelude::*;
use vstd::string::*;

verus! {

/// How many characters the random suffix of a run name has.
pub const SUFFIX_LEN: usize = 6;

/// How many distinct characters a suffix may hold: `a`..`z` and `0`..`9`.
pub const ALPHABET_LEN: u32 = 36;

pub open spec fn is_suffix_char(c: char) -> bool {
    ('a' <= c && c <= 'z') || ('0' <= c && c <= '9')
}

/// A well-formed suffix: six lowercase ASCII letters or digits.
pub open spec fn is_suffix(s: Seq<char>) -> bool {
    &&& s.len() == SUFFIX_LEN
    &&& forall|i: int| 0 <= i < s.len() ==> is_suffix_char(#[trigger] s[i])
}

/// The character that stands for `k` in the suffix alphabet.
pub open spec fn alphabet_char(k: int) -> char {
    if k < 26 {
        (('a' as u32) + k) as char
    } else {
        (('0' as u32) + (k - 26)) as char
    }
}

/// The run name made of a template name and a suffix.
pub open spec fn run_name(template: Seq<char>, suffix: Seq<char>) -> Seq<char> {
    if template.len() == 0 {
        "job-hopper-"@ + suffix
    } else {
        template + seq!['-'] + suffix
    }
}

/// Maps a number below the alphabet's size to its character.
pub fn alphabet_char_of(k: u32) -> (c: char)
    requires
        k < ALPHABET_LEN,
    ensures
        c == alphabet_char(k as int),
        is_suffix_char(c),
{
    if k < 26 {
        ((97u32 + k) as u8) as char
    } else {
        ((48u32 + (k - 26)) as u8) as char
    }
}

/// Relies on rand's `thread_rng` and `Rng::gen_range`: a number drawn
/// uniformly from `0..bound`. `gen_range` panics on an empty range.
#[verifier::external_body]
fn draw_below(bound: u32) -> (r: u32)
    requires
        bound > 0,
    ensures
        r < bound,
{
    rand::Rng::gen_range(&mut rand::thread_rng(), 0..bound)
}

/// Relies on std's `String::push`: appends one character.
#[verifier::external_body]
fn push_char(s: &mut String, c: char)
    ensures
        final(s)@ == old(s)@.push(c),
{
    s.push(c)
}

/// Draws a fresh suffix: each character uniformly from `a`..`z` and `0`..`9`.
pub fn random_suffix() -> (r: String)
    ensures
        is_suffix(r@),
{
    let mut r = String::new();
    let mut i: usize = 0;
    while i < SUFFIX_LEN
        invariant
            i <= SUFFIX_LEN,
            r@.len() == i,
            forall|j: int| 0 <= j < r@.len() ==> is_suffix_char(#[trigger] r@[j]),
        decreases SUFFIX_LEN - i,
    {
        let k = draw_below(ALPHABET_LEN);
        let c = alphabet_char_of(k);
        push_char(&mut r, c);
        i = i + 1;
    }
    r
}

/// The run name for a template name and a given suffix: `<template>-<suffix>`,
/// or `job-hopper-<suffix>` where the template name is empty.
pub fn run_name_with_suffix(template: &str, suffix: &str) -> (r: String)
    ensures
        r@ == run_name(template@, suffix@),
{
    let mut r: String;
    if template.is_empty() {
        r = String::from_str("job-hopper-");
        proof {
            reveal_strlit("job-hopper-");
        }
    } else {
        r = template.to_owned();
        r.append("-");
        proof {
            reveal_strlit("-");
            assert(r@ == template@ + seq!['-']);
        }
    }
    r.append(suffix);
    r
}

/// A fresh name for a one-off run of the template named `s`. Collisions with
/// names already taken are not checked.
pub fn create_tmp_job_name(s: String) -> (r: String)
    ensures
        exists|suffix: Seq<char>| is_suffix(suffix) && r@ == run_name(s@, suffix),
{
    let suffix = random_suffix();
    run_name_with_suffix(s.as_str(), suffix.as_str())
}

} // verus!
