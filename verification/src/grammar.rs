//! The pattern grammar of the interpreter, stated over the byte view of
//! the input line.
//!
//! Every rule is an alternation of fixed tokens, matched the way a
//! left-to-right pattern engine matches it: the scan stops at the
//! leftmost position where some alternative fits, and among the
//! alternatives at that position the first in rule order is taken. On
//! top of that, a match is accepted only if it reaches the end of the
//! input (full-match-to-end): the match may start anywhere, but trailing
//! unmatched bytes invalidate it.

use vstd::prelude::*;

use crate::world::Connection;
use crate::world::LocKey;
use vstd::utf8::encode_utf8;

verus! {

/// Token `t` stands in `s` at byte position `i`.
pub open spec fn token_at(s: Seq<u8>, t: Seq<u8>, i: int) -> bool {
    &&& 0 <= i
    &&& i + t.len() <= s.len()
    &&& forall|k: int| 0 <= k < t.len() ==> s[i + k] == t[k]
}

/// How many movement verbs the movement rule alternates over.
pub open spec fn verb_count() -> int {
    10
}

/// The movement verbs, in the order the rule tries them. `go to` stands
/// before `go`, so the longer verb wins where both fit.
pub open spec fn verb(j: int) -> Seq<u8> {
    if j == 0 {
        seq![('g' as u8), ('o' as u8), (' ' as u8), ('t' as u8), ('o' as u8)]
    } else if j == 1 {
        seq![('g' as u8), ('o' as u8)]
    } else if j == 2 {
        seq![('w' as u8), ('a' as u8), ('l' as u8), ('k' as u8)]
    } else if j == 3 {
        seq![('s' as u8), ('t' as u8), ('r' as u8), ('o' as u8), ('l' as u8), ('l' as u8)]
    } else if j == 4 {
        seq![('a' as u8), ('m' as u8), ('b' as u8), ('l' as u8), ('e' as u8)]
    } else if j == 5 {
        seq![('m' as u8), ('o' as u8), ('v' as u8), ('e' as u8)]
    } else if j == 6 {
        seq![('h' as u8), ('e' as u8), ('a' as u8), ('d' as u8)]
    } else if j == 7 {
        seq![('m' as u8), ('e' as u8), ('a' as u8), ('n' as u8), ('d' as u8), ('e' as u8), ('r' as u8)]
    } else if j == 8 {
        seq![('s' as u8), ('a' as u8), ('u' as u8), ('n' as u8), ('t' as u8), ('e' as u8), ('r' as u8)]
    } else {
        seq![('j' as u8), ('o' as u8), ('g' as u8)]
    }
}

/// Verb `j` stands at position `i`, followed by the separating space.
/// The captured remainder after the space may be empty.
pub open spec fn mv_verb_at(s: Seq<u8>, i: int, j: int) -> bool {
    &&& 0 <= j < verb_count()
    &&& token_at(s, verb(j), i)
    &&& i + verb(j).len() < s.len()
    &&& s[i + verb(j).len()] == (' ' as u8)
}

/// Some movement verb (with its trailing space) stands at position `i`.
pub open spec fn mv_any_at(s: Seq<u8>, i: int) -> bool {
    exists|j: int| mv_verb_at(s, i, j)
}

/// `(i, j)` is the match the movement rule selects: the leftmost
/// matching position, and there the first verb alternative in rule
/// order. The remainder runs to the end of the input, so an accepted
/// movement match always reaches the end.
pub open spec fn mv_leftmost(s: Seq<u8>, i: int, j: int) -> bool {
    &&& mv_verb_at(s, i, j)
    &&& forall|i2: int| 0 <= i2 < i ==> !mv_any_at(s, i2)
    &&& forall|j2: int| 0 <= j2 < j ==> !mv_verb_at(s, i, j2)
}

/// The direction token captured after verb `j` at position `i`:
/// everything from behind the space to the end of the input.
pub open spec fn mv_capture(s: Seq<u8>, i: int, j: int) -> Seq<u8> {
    s.subrange(i + verb(j).len() + 1, s.len() as int)
}

pub open spec fn tok_exit() -> Seq<u8> {
    seq![('e' as u8), ('x' as u8), ('i' as u8), ('t' as u8)]
}

pub open spec fn tok_quit() -> Seq<u8> {
    seq![('q' as u8), ('u' as u8), ('i' as u8), ('t' as u8)]
}

/// An exit token stands at position `i`.
pub open spec fn exit_tok_at(s: Seq<u8>, i: int) -> bool {
    token_at(s, tok_exit(), i) || token_at(s, tok_quit(), i)
}

/// The exit rule accepts `s`: the leftmost occurrence of an exit token
/// reaches the end of the input.
pub open spec fn exit_rule(s: Seq<u8>) -> bool {
    exists|i: int|
        exit_tok_at(s, i) && i + 4 == s.len() && (forall|k: int| 0 <= k < i ==> !exit_tok_at(s, k))
}

pub open spec fn tok_time() -> Seq<u8> {
    seq![('t' as u8), ('i' as u8), ('m' as u8), ('e' as u8)]
}

pub open spec fn tok_clock() -> Seq<u8> {
    seq![('c' as u8), ('l' as u8), ('o' as u8), ('c' as u8), ('k' as u8)]
}

pub open spec fn tok_watch() -> Seq<u8> {
    seq![('w' as u8), ('a' as u8), ('t' as u8), ('c' as u8), ('h' as u8)]
}

/// The word `check` with the separating space that precedes a time token.
pub open spec fn tok_check_sp() -> Seq<u8> {
    seq![('c' as u8), ('h' as u8), ('e' as u8), ('c' as u8), ('k' as u8), (' ' as u8)]
}

/// A time token (`time`, `clock` or `watch`) stands at position `i`. At
/// most one fits, since their first bytes differ.
pub open spec fn time_tok_at(s: Seq<u8>, i: int) -> bool {
    token_at(s, tok_time(), i) || token_at(s, tok_clock(), i) || token_at(s, tok_watch(), i)
}

/// Where the time token standing at position `i` ends.
pub open spec fn time_tok_end(s: Seq<u8>, i: int) -> int {
    if token_at(s, tok_time(), i) {
        i + 4
    } else {
        i + 5
    }
}

/// The time rule's pattern stands at position `i`: the word `check`
/// with its separating space before the time token, or — `check` being
/// optional — the bare time token itself.
pub open spec fn time_match_at(s: Seq<u8>, i: int) -> bool {
    ||| (token_at(s, tok_check_sp(), i) && time_tok_at(s, i + 6))
    ||| time_tok_at(s, i)
}

/// Where the time rule's match starting at position `i` ends. The
/// longer `check` form wins where both forms could stand.
pub open spec fn time_match_end(s: Seq<u8>, i: int) -> int {
    if token_at(s, tok_check_sp(), i) && time_tok_at(s, i + 6) {
        time_tok_end(s, i + 6)
    } else {
        time_tok_end(s, i)
    }
}

/// The time rule accepts `s`: its leftmost match reaches the end of the
/// input.
pub open spec fn time_rule(s: Seq<u8>) -> bool {
    exists|i: int|
        time_match_at(s, i) && time_match_end(s, i) == s.len() && (forall|k: int|
            0 <= k < i ==> !time_match_at(s, k))
}

pub open spec fn tok_wait() -> Seq<u8> {
    seq![('w' as u8), ('a' as u8), ('i' as u8), ('t' as u8)]
}

pub open spec fn tok_idle() -> Seq<u8> {
    seq![('i' as u8), ('d' as u8), ('l' as u8), ('e' as u8)]
}

pub open spec fn tok_chill() -> Seq<u8> {
    seq![('c' as u8), ('h' as u8), ('i' as u8), ('l' as u8), ('l' as u8)]
}

pub open spec fn tok_stay() -> Seq<u8> {
    seq![('s' as u8), ('t' as u8), ('a' as u8), ('y' as u8)]
}

/// A wait token stands at position `i`. At most one fits, since their
/// first bytes differ.
pub open spec fn wait_tok_at(s: Seq<u8>, i: int) -> bool {
    ||| token_at(s, tok_wait(), i)
    ||| token_at(s, tok_idle(), i)
    ||| token_at(s, tok_chill(), i)
    ||| token_at(s, tok_stay(), i)
}

/// Where the wait token standing at position `i` ends.
pub open spec fn wait_tok_end(s: Seq<u8>, i: int) -> int {
    if token_at(s, tok_chill(), i) {
        i + 5
    } else {
        i + 4
    }
}

/// The wait rule accepts `s`: the leftmost occurrence of a wait token
/// reaches the end of the input.
pub open spec fn wait_rule(s: Seq<u8>) -> bool {
    exists|i: int|
        wait_tok_at(s, i) && wait_tok_end(s, i) == s.len() && (forall|k: int|
            0 <= k < i ==> !wait_tok_at(s, k))
}

/// The byte form of a connection's direction label, which a captured
/// direction token is compared against.
pub open spec fn dir_bytes(c: Connection) -> Seq<u8> {
    encode_utf8(c.direction@)
}

/// The first connection (in the location's connection order) whose
/// direction label equals the captured token, if any: the destination a
/// movement command resolves to.
pub open spec fn resolve_direction(conns: Seq<Connection>, dir: Seq<u8>) -> Option<LocKey>
    decreases conns.len(),
{
    if conns.len() == 0 {
        None
    } else if dir_bytes(conns[0]) == dir {
        Some(conns[0].destination)
    } else {
        resolve_direction(conns.drop_first(), dir)
    }
}

} // verus!
