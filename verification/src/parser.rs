//! The command interpreter: an ordered set of pattern rules, tried in
//! fixed priority order (movement, exit, time, wait). The first rule
//! that accepts the input wins; a movement match whose captured
//! direction resolves to no connection at the current location falls
//! through to the later rules instead of failing outright.

use vstd::prelude::*;

use crate::command::Cmd;
use crate::grammar::dir_bytes;
use crate::grammar::exit_rule;
use crate::grammar::exit_tok_at;
use crate::grammar::mv_any_at;
use crate::grammar::mv_capture;
use crate::grammar::mv_leftmost;
use crate::grammar::mv_verb_at;
use crate::grammar::resolve_direction;
use crate::grammar::time_match_at;
use crate::grammar::time_rule;
use crate::grammar::time_tok_at;
use crate::grammar::time_tok_end;
use crate::grammar::tok_check_sp;
use crate::grammar::tok_chill;
use crate::grammar::tok_clock;
use crate::grammar::tok_exit;
use crate::grammar::tok_idle;
use crate::grammar::tok_quit;
use crate::grammar::tok_stay;
use crate::grammar::tok_time;
use crate::grammar::tok_wait;
use crate::grammar::tok_watch;
use crate::grammar::token_at;
use crate::grammar::verb;
use crate::grammar::verb_count;
use crate::grammar::wait_rule;
use crate::grammar::wait_tok_at;
use crate::grammar::wait_tok_end;
use crate::world::Connection;
use crate::world::LocKey;
use crate::world::World;
use vstd::pervasive::unreached;
use vstd::string::StringSliceAdditionalSpecFns;

verus! {

/// Whether token `t` stands in `s` at position `i`.
#[verifier::loop_isolation(false)]
fn token_at_exec(s: &[u8], t: &Vec<u8>, i: usize) -> (r: bool)
    ensures
        r == token_at(s@, t@, i as int),
{
    if i > s.len() {
        return false;
    }
    if s.len() - i < t.len() {
        return false;
    }
    let mut k: usize = 0;
    while k < t.len()
        invariant
            i + t@.len() <= s@.len(),
            k <= t@.len(),
            forall|m: int| 0 <= m < k ==> s@[i + m] == t@[m],
        decreases t@.len() - k,
    {
        if s[i + k] != t[k] {
            return false;
        }
        k += 1;
    }
    true
}

/// Whether the suffix of `s` that starts at `start` equals `t`.
#[verifier::loop_isolation(false)]
fn suffix_eq(s: &[u8], start: usize, t: &[u8]) -> (r: bool)
    requires
        start <= s@.len(),
    ensures
        r == (s@.subrange(start as int, s@.len() as int) == t@),
{
    let ghost suffix = s@.subrange(start as int, s@.len() as int);
    if s.len() - start != t.len() {
        assert(suffix.len() != t@.len());
        return false;
    }
    let mut k: usize = 0;
    while k < t.len()
        invariant
            start + t@.len() == s@.len(),
            k <= t@.len(),
            forall|m: int| 0 <= m < k ==> s@[start + m] == t@[m],
        decreases t@.len() - k,
    {
        if s[start + k] != t[k] {
            assert(suffix[k as int] != t@[k as int]);
            return false;
        }
        k += 1;
    }
    assert(suffix =~= t@);
    true
}

/// The interpreter. Holds the grammar's token tables, built once; the
/// well-formedness predicate ties each table to the grammar it stands
/// for.
pub struct CmdParser {
    go_verbs: Vec<Vec<u8>>,
    exit_toks: Vec<Vec<u8>>,
    time_toks: Vec<Vec<u8>>,
    check_tok: Vec<u8>,
    wait_toks: Vec<Vec<u8>>,
}

impl CmdParser {
    /// The token tables hold exactly the grammar's tokens, in rule order.
    pub closed spec fn wf(self) -> bool {
        &&& self.go_verbs@.len() == verb_count()
        &&& (forall|j: int| 0 <= j < verb_count() ==> self.go_verbs@[j]@ == verb(j))
        &&& self.exit_toks@.len() == 2
        &&& self.exit_toks@[0]@ == tok_exit()
        &&& self.exit_toks@[1]@ == tok_quit()
        &&& self.time_toks@.len() == 3
        &&& self.time_toks@[0]@ == tok_time()
        &&& self.time_toks@[1]@ == tok_clock()
        &&& self.time_toks@[2]@ == tok_watch()
        &&& self.check_tok@ == tok_check_sp()
        &&& self.wait_toks@.len() == 4
        &&& self.wait_toks@[0]@ == tok_wait()
        &&& self.wait_toks@[1]@ == tok_idle()
        &&& self.wait_toks@[2]@ == tok_chill()
        &&& self.wait_toks@[3]@ == tok_stay()
    }

    /// Build the interpreter's token tables.
    pub fn new() -> (r: CmdParser)
        ensures
            r.wf(),
    {
        let mut go_verbs: Vec<Vec<u8>> = Vec::new();
        let mut t: Vec<u8> = Vec::new();
        t.push('g' as u8);
        t.push('o' as u8);
        t.push(' ' as u8);
        t.push('t' as u8);
        t.push('o' as u8);
        assert(t@ =~= verb(0));
        go_verbs.push(t);
        let mut t: Vec<u8> = Vec::new();
        t.push('g' as u8);
        t.push('o' as u8);
        assert(t@ =~= verb(1));
        go_verbs.push(t);
        let mut t: Vec<u8> = Vec::new();
        t.push('w' as u8);
        t.push('a' as u8);
        t.push('l' as u8);
        t.push('k' as u8);
        assert(t@ =~= verb(2));
        go_verbs.push(t);
        let mut t: Vec<u8> = Vec::new();
        t.push('s' as u8);
        t.push('t' as u8);
        t.push('r' as u8);
        t.push('o' as u8);
        t.push('l' as u8);
        t.push('l' as u8);
        assert(t@ =~= verb(3));
        go_verbs.push(t);
        let mut t: Vec<u8> = Vec::new();
        t.push('a' as u8);
        t.push('m' as u8);
        t.push('b' as u8);
        t.push('l' as u8);
        t.push('e' as u8);
        assert(t@ =~= verb(4));
        go_verbs.push(t);
        let mut t: Vec<u8> = Vec::new();
        t.push('m' as u8);
        t.push('o' as u8);
        t.push('v' as u8);
        t.push('e' as u8);
        assert(t@ =~= verb(5));
        go_verbs.push(t);
        let mut t: Vec<u8> = Vec::new();
        t.push('h' as u8);
        t.push('e' as u8);
        t.push('a' as u8);
        t.push('d' as u8);
        assert(t@ =~= verb(6));
        go_verbs.push(t);
        let mut t: Vec<u8> = Vec::new();
        t.push('m' as u8);
        t.push('e' as u8);
        t.push('a' as u8);
        t.push('n' as u8);
        t.push('d' as u8);
        t.push('e' as u8);
        t.push('r' as u8);
        assert(t@ =~= verb(7));
        go_verbs.push(t);
        let mut t: Vec<u8> = Vec::new();
        t.push('s' as u8);
        t.push('a' as u8);
        t.push('u' as u8);
        t.push('n' as u8);
        t.push('t' as u8);
        t.push('e' as u8);
        t.push('r' as u8);
        assert(t@ =~= verb(8));
        go_verbs.push(t);
        let mut t: Vec<u8> = Vec::new();
        t.push('j' as u8);
        t.push('o' as u8);
        t.push('g' as u8);
        assert(t@ =~= verb(9));
        go_verbs.push(t);
        let mut exit_toks: Vec<Vec<u8>> = Vec::new();
        let mut t: Vec<u8> = Vec::new();
        t.push('e' as u8);
        t.push('x' as u8);
        t.push('i' as u8);
        t.push('t' as u8);
        assert(t@ =~= tok_exit());
        exit_toks.push(t);
        let mut t: Vec<u8> = Vec::new();
        t.push('q' as u8);
        t.push('u' as u8);
        t.push('i' as u8);
        t.push('t' as u8);
        assert(t@ =~= tok_quit());
        exit_toks.push(t);
        let mut time_toks: Vec<Vec<u8>> = Vec::new();
        let mut t: Vec<u8> = Vec::new();
        t.push('t' as u8);
        t.push('i' as u8);
        t.push('m' as u8);
        t.push('e' as u8);
        assert(t@ =~= tok_time());
        time_toks.push(t);
        let mut t: Vec<u8> = Vec::new();
        t.push('c' as u8);
        t.push('l' as u8);
        t.push('o' as u8);
        t.push('c' as u8);
        t.push('k' as u8);
        assert(t@ =~= tok_clock());
        time_toks.push(t);
        let mut t: Vec<u8> = Vec::new();
        t.push('w' as u8);
        t.push('a' as u8);
        t.push('t' as u8);
        t.push('c' as u8);
        t.push('h' as u8);
        assert(t@ =~= tok_watch());
        time_toks.push(t);
        let mut check_tok: Vec<u8> = Vec::new();
        check_tok.push('c' as u8);
        check_tok.push('h' as u8);
        check_tok.push('e' as u8);
        check_tok.push('c' as u8);
        check_tok.push('k' as u8);
        check_tok.push(' ' as u8);
        assert(check_tok@ =~= tok_check_sp());
        let mut wait_toks: Vec<Vec<u8>> = Vec::new();
        let mut t: Vec<u8> = Vec::new();
        t.push('w' as u8);
        t.push('a' as u8);
        t.push('i' as u8);
        t.push('t' as u8);
        assert(t@ =~= tok_wait());
        wait_toks.push(t);
        let mut t: Vec<u8> = Vec::new();
        t.push('i' as u8);
        t.push('d' as u8);
        t.push('l' as u8);
        t.push('e' as u8);
        assert(t@ =~= tok_idle());
        wait_toks.push(t);
        let mut t: Vec<u8> = Vec::new();
        t.push('c' as u8);
        t.push('h' as u8);
        t.push('i' as u8);
        t.push('l' as u8);
        t.push('l' as u8);
        assert(t@ =~= tok_chill());
        wait_toks.push(t);
        let mut t: Vec<u8> = Vec::new();
        t.push('s' as u8);
        t.push('t' as u8);
        t.push('a' as u8);
        t.push('y' as u8);
        assert(t@ =~= tok_stay());
        wait_toks.push(t);
        CmdParser { go_verbs, exit_toks, time_toks, check_tok, wait_toks }
    }

    /// The movement rule's match, if any: the leftmost position where a
    /// verb (with its trailing space) stands, and the first such verb
    /// there in rule order.
    #[verifier::loop_isolation(false)]
    fn find_movement(&self, s: &[u8]) -> (r: Option<(usize, usize)>)
        requires
            self.wf(),
        ensures
            match r {
                Some(p) => mv_leftmost(s@, p.0 as int, p.1 as int),
                None => forall|i: int| !mv_any_at(s@, i),
            },
    {
        let mut i: usize = 0;
        while i < s.len()
            invariant
                self.wf(),
                i <= s@.len(),
                forall|k: int| 0 <= k < i ==> !mv_any_at(s@, k),
            decreases s@.len() - i,
        {
            let mut j: usize = 0;
            while j < self.go_verbs.len()
                invariant
                    self.wf(),
                    i < s@.len(),
                    j <= verb_count(),
                    forall|j2: int| 0 <= j2 < j ==> !mv_verb_at(s@, i as int, j2),
                decreases verb_count() - j,
            {
                if token_at_exec(s, &self.go_verbs[j], i) {
                    let vl: usize = self.go_verbs[j].len();
                    if i + vl < s.len() {
                        if s[i + vl] == (' ' as u8) {
                            assert(mv_verb_at(s@, i as int, j as int));
                            return Some((i, j));
                        }
                    }
                    assert(!mv_verb_at(s@, i as int, j as int));
                }
                j += 1;
            }
            assert(!mv_any_at(s@, i as int));
            i += 1;
        }
        assert forall|k: int| !mv_any_at(s@, k) by {
            if mv_any_at(s@, k) {
                let j = choose|j: int| mv_verb_at(s@, k, j);
                assert(0 <= k < s@.len());
            }
        }
        None
    }

    /// The exit rule: the leftmost exit token must reach the end of the
    /// input.
    #[verifier::loop_isolation(false)]
    fn exit_matches(&self, s: &[u8]) -> (r: bool)
        requires
            self.wf(),
        ensures
            r == exit_rule(s@),
    {
        let mut i: usize = 0;
        while i < s.len()
            invariant
                self.wf(),
                i <= s@.len(),
                forall|k: int| 0 <= k < i ==> !exit_tok_at(s@, k),
            decreases s@.len() - i,
        {
            if token_at_exec(s, &self.exit_toks[0], i) || token_at_exec(s, &self.exit_toks[1], i) {
                assert(exit_tok_at(s@, i as int));
                return i + 4 == s.len();
            }
            i += 1;
        }
        assert(!exit_rule(s@));
        false
    }

    /// The length of the time token standing at `i`, if one does.
    fn time_tok_len_at(&self, s: &[u8], i: usize) -> (r: Option<usize>)
        requires
            self.wf(),
        ensures
            match r {
                Some(l) => time_tok_at(s@, i as int) && i + l == time_tok_end(s@, i as int),
                None => !time_tok_at(s@, i as int),
            },
    {
        if token_at_exec(s, &self.time_toks[0], i) {
            Some(4)
        } else if token_at_exec(s, &self.time_toks[1], i) {
            Some(5)
        } else if token_at_exec(s, &self.time_toks[2], i) {
            Some(5)
        } else {
            None
        }
    }

    /// The time rule: its leftmost match (a time token, with the word
    /// `check` and a space optionally in front) must reach the end of
    /// the input.
    #[verifier::loop_isolation(false)]
    fn time_matches(&self, s: &[u8]) -> (r: bool)
        requires
            self.wf(),
        ensures
            r == time_rule(s@),
    {
        let mut i: usize = 0;
        while i < s.len()
            invariant
                self.wf(),
                i <= s@.len(),
                forall|k: int| 0 <= k < i ==> !time_match_at(s@, k),
            decreases s@.len() - i,
        {
            if token_at_exec(s, &self.check_tok, i) {
                match self.time_tok_len_at(s, i + 6) {
                    Some(l) => {
                        assert(time_match_at(s@, i as int));
                        return i + 6 + l == s.len();
                    },
                    None => {},
                }
            }
            match self.time_tok_len_at(s, i) {
                Some(l) => {
                    assert(time_match_at(s@, i as int));
                    return i + l == s.len();
                },
                None => {
                    assert(!time_match_at(s@, i as int));
                },
            }
            i += 1;
        }
        assert(!time_rule(s@));
        false
    }

    /// The length of the wait token standing at `i`, if one does.
    fn wait_tok_len_at(&self, s: &[u8], i: usize) -> (r: Option<usize>)
        requires
            self.wf(),
        ensures
            match r {
                Some(l) => wait_tok_at(s@, i as int) && i + l == wait_tok_end(s@, i as int),
                None => !wait_tok_at(s@, i as int),
            },
    {
        if token_at_exec(s, &self.wait_toks[0], i) {
            Some(4)
        } else if token_at_exec(s, &self.wait_toks[1], i) {
            Some(4)
        } else if token_at_exec(s, &self.wait_toks[2], i) {
            Some(5)
        } else if token_at_exec(s, &self.wait_toks[3], i) {
            Some(4)
        } else {
            None
        }
    }

    /// The wait rule: the leftmost wait token must reach the end of the
    /// input.
    #[verifier::loop_isolation(false)]
    fn wait_matches(&self, s: &[u8]) -> (r: bool)
        requires
            self.wf(),
        ensures
            r == wait_rule(s@),
    {
        let mut i: usize = 0;
        while i < s.len()
            invariant
                self.wf(),
                i <= s@.len(),
                forall|k: int| 0 <= k < i ==> !wait_tok_at(s@, k),
            decreases s@.len() - i,
        {
            match self.wait_tok_len_at(s, i) {
                Some(l) => {
                    return i + l == s.len();
                },
                None => {},
            }
            i += 1;
        }
        assert(!wait_rule(s@));
        false
    }
}

/// What the movement rule yields on `s`: the destination of the first
/// connection at the current location whose direction label equals the
/// captured token of the rule's selected match, if the rule matches and
/// the token resolves.
pub open spec fn movement_spec(w: World, s: Seq<u8>) -> Option<LocKey> {
    if exists|i: int, j: int| mv_leftmost(s, i, j) {
        let (i, j) = choose|i: int, j: int| mv_leftmost(s, i, j);
        resolve_direction(w.conns_at(w.at), mv_capture(s, i, j))
    } else {
        None
    }
}

/// What one line of input means: the rules in fixed priority order, the
/// first acceptance winning. A movement match that resolves to no
/// connection falls through to the later rules.
pub open spec fn parse_spec(w: World, s: Seq<u8>) -> Option<Cmd> {
    match movement_spec(w, s) {
        Some(d) => Some(Cmd::GoTo(d)),
        None => if exit_rule(s) {
            Some(Cmd::Exit)
        } else if time_rule(s) {
            Some(Cmd::CheckTime)
        } else if wait_rule(s) {
            Some(Cmd::Wait)
        } else {
            None
        },
    }
}

/// Where no rule's pattern accepts the input under the
/// full-match-to-end filter, parsing yields no command.
pub proof fn lemma_unmatched_input_yields_none(w: World, s: Seq<u8>)
    requires
        forall|i: int| !mv_any_at(s, i),
        !exit_rule(s),
        !time_rule(s),
        !wait_rule(s),
    ensures
        parse_spec(w, s) is None,
{
    lemma_movement_spec_none(w, s);
}

/// Rule priority: where the movement rule matches and its captured
/// direction resolves to a destination, the result is the travel
/// command — no matter whether any later rule would also accept.
pub proof fn lemma_movement_takes_priority(w: World, s: Seq<u8>, d: LocKey)
    requires
        movement_spec(w, s) == Some(d),
    ensures
        parse_spec(w, s) == Some(Cmd::GoTo(d)),
{
}

/// Rule priority: where the movement rule yields nothing and the exit
/// pattern accepts the input, the result is the exit command — no
/// matter whether the time or wait patterns would also accept it, since
/// the exit rule stands earlier in the fixed order.
pub proof fn lemma_exit_takes_priority(w: World, s: Seq<u8>)
    requires
        movement_spec(w, s) is None,
        exit_rule(s),
    ensures
        parse_spec(w, s) == Some(Cmd::Exit),
{
}

/// Rule priority, one rung down: where neither movement nor exit
/// accepts and the time pattern does, the result is the time command —
/// no matter whether the wait pattern would also accept.
pub proof fn lemma_time_takes_priority_over_wait(w: World, s: Seq<u8>)
    requires
        movement_spec(w, s) is None,
        !exit_rule(s),
        time_rule(s),
    ensures
        parse_spec(w, s) == Some(Cmd::CheckTime),
{
}

/// Rule priority, last rung: the wait rule decides only where no
/// earlier rule accepted.
pub proof fn lemma_wait_stands_last(w: World, s: Seq<u8>)
    requires
        movement_spec(w, s) is None,
        !exit_rule(s),
        !time_rule(s),
        wait_rule(s),
    ensures
        parse_spec(w, s) == Some(Cmd::Wait),
{
}

/// Interpretation is pure: it has no hidden state, so the same world
/// and the same text always yield the same command — in particular the
/// time and wait commands come out the same when the same line is
/// parsed twice.
pub proof fn lemma_parse_is_pure(w: World, s: Seq<u8>, r1: Option<Cmd>, r2: Option<Cmd>)
    requires
        r1 == parse_spec(w, s),
        r2 == parse_spec(w, s),
    ensures
        r1 == r2,
{
}

/// The movement rule selects at most one match: leftmost position,
/// first verb alternative there.
proof fn lemma_mv_leftmost_unique(s: Seq<u8>, i1: int, j1: int, i2: int, j2: int)
    requires
        mv_leftmost(s, i1, j1),
        mv_leftmost(s, i2, j2),
    ensures
        i1 == i2,
        j1 == j2,
{
    assert(mv_any_at(s, i1));
    assert(mv_any_at(s, i2));
    assert(0 <= i1 && 0 <= i2);
}

/// Where the movement rule selects the match `(i, j)`, the rule's
/// result is the resolution of that match's captured direction.
proof fn lemma_movement_spec_at(w: World, s: Seq<u8>, i: int, j: int)
    requires
        mv_leftmost(s, i, j),
    ensures
        movement_spec(w, s) == resolve_direction(w.conns_at(w.at), mv_capture(s, i, j)),
{
    assert(exists|a: int, b: int| mv_leftmost(s, a, b));
    assert forall|a: int, b: int| mv_leftmost(s, a, b) implies a == i && b == j by {
        lemma_mv_leftmost_unique(s, a, b, i, j);
    }
}

/// Where no movement verb stands anywhere, the movement rule yields
/// nothing.
proof fn lemma_movement_spec_none(w: World, s: Seq<u8>)
    requires
        forall|i: int| !mv_any_at(s, i),
    ensures
        movement_spec(w, s) is None,
{
    if exists|a: int, b: int| mv_leftmost(s, a, b) {
        let (a, b) = choose|a: int, b: int| mv_leftmost(s, a, b);
        assert(mv_any_at(s, a));
        assert(false);
    }
}

/// Resolution skips the connections whose direction label differs from
/// the captured token.
proof fn lemma_resolve_after_mismatches(conns: Seq<Connection>, dir: Seq<u8>, c: int)
    requires
        0 <= c <= conns.len(),
        forall|m: int| 0 <= m < c ==> dir_bytes(conns[m]) != dir,
    ensures
        resolve_direction(conns, dir) == resolve_direction(conns.skip(c), dir),
    decreases c,
{
    if c == 0 {
        assert(conns.skip(0) =~= conns);
    } else {
        lemma_resolve_after_mismatches(conns, dir, c - 1);
        assert(conns.skip(c - 1).len() > 0);
        assert(conns.skip(c - 1)[0] == conns[c - 1]);
        assert(conns.skip(c - 1).drop_first() =~= conns.skip(c));
    }
}

impl CmdParser {
    /// Interpret one line of input against the world. Pure: no state of
    /// the interpreter or the world changes, and the result is exactly
    /// [`parse_spec`] of the world and the line's bytes.
    #[verifier::loop_isolation(false)]
    pub fn parse(&self, world: &World, s: &str) -> (r: Option<Cmd>)
        requires
            self.wf(),
            world.wf(),
        ensures
            r == parse_spec(*world, s.spec_bytes()),
    {
        let b: &[u8] = s.as_bytes();
        let blen: usize = b.len();
        match self.find_movement(b) {
            Some((i, j)) => {
                let vl: usize = self.go_verbs[j].len();
                let cap_start: usize = i + vl + 1;
                let ghost dir = mv_capture(b@, i as int, j as int);
                proof {
                    lemma_movement_spec_at(*world, b@, i as int, j as int);
                }
                let conns: &Vec<Connection> = match world.connections_here() {
                    Some(c) => c,
                    None => unreached(),
                };
                let mut c: usize = 0;
                while c < conns.len()
                    invariant
                        self.wf(),
                        c <= conns@.len(),
                        cap_start <= b@.len(),
                        dir == b@.subrange(cap_start as int, b@.len() as int),
                        forall|m: int| 0 <= m < c ==> dir_bytes(conns@[m]) != dir,
                    decreases conns@.len() - c,
                {
                    let d = &conns[c];
                    if suffix_eq(b, cap_start, d.direction.as_str().as_bytes()) {
                        proof {
                            lemma_resolve_after_mismatches(conns@, dir, c as int);
                            assert(conns@.skip(c as int)[0] == conns@[c as int]);
                            assert(resolve_direction(conns@, dir) == Some(d.destination));
                        }
                        return Some(Cmd::GoTo(d.destination));
                    }
                    c += 1;
                }
                proof {
                    lemma_resolve_after_mismatches(conns@, dir, c as int);
                    assert(conns@.skip(c as int) =~= Seq::empty());
                    assert(resolve_direction(conns@, dir) is None);
                }
            },
            None => {
                proof {
                    lemma_movement_spec_none(*world, b@);
                }
            },
        }
        if self.exit_matches(b) {
            return Some(Cmd::Exit);
        }
        if self.time_matches(b) {
            return Some(Cmd::CheckTime);
        }
        if self.wait_matches(b) {
            return Some(Cmd::Wait);
        }
        None
    }
}

} // verus!
