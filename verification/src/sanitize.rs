//! The two name policies.
//!
//! The physical policy makes a storage identifier out of a display name;
//! its result is kept in the diagram. The export policy makes a token that
//! a rendered text can carry; its result is never kept. Each has its own
//! set of characters that it lets through, and both treat everything else
//! alike: what stands between two runs of accepted characters becomes a
//! single `_`, what stands before the first or after the last goes, and a
//! name of which nothing is left gets a fixed token.
use vstd::prelude::*;
use vstd::string::*;
use crate::text::lowercase;
use crate::text::lowercase_of;

verus! {

/// Which of the two policies is meant.
#[derive(Clone, Copy, Debug, PartialEq, Eq)]
pub enum Policy {
    Physical,
    Export,
}

/// The characters that the physical policy lets through: lower-case ASCII
/// letters and digits.
pub open spec fn is_physical_char(c: char) -> bool {
    'a' <= c <= 'z' || '0' <= c <= '9'
}

/// The characters that the export policy lets through: ASCII letters of
/// either case, digits, the Hangul compatibility consonants and vowels, and
/// the Hangul syllables.
pub open spec fn is_export_char(c: char) -> bool {
    ||| 'a' <= c <= 'z'
    ||| 'A' <= c <= 'Z'
    ||| '0' <= c <= '9'
    ||| '\u{3131}' <= c <= '\u{314E}'
    ||| '\u{314F}' <= c <= '\u{3163}'
    ||| '\u{AC00}' <= c <= '\u{D7A3}'
}

/// The characters that a policy lets through. Neither lets `_` through.
pub open spec fn keeps(policy: Policy, c: char) -> bool {
    match policy {
        Policy::Physical => is_physical_char(c),
        Policy::Export => is_export_char(c),
    }
}

/// Whether the physical policy lets `c` through.
pub fn physical_char(c: char) -> (r: bool)
    ensures
        r == is_physical_char(c),
{
    (c >= 'a' && c <= 'z') || (c >= '0' && c <= '9')
}

/// Whether the export policy lets `c` through.
pub fn export_char(c: char) -> (r: bool)
    ensures
        r == is_export_char(c),
{
    (c >= 'a' && c <= 'z') || (c >= 'A' && c <= 'Z') || (c >= '0' && c <= '9') || (c
        >= '\u{3131}' && c <= '\u{314E}') || (c >= '\u{314F}' && c <= '\u{3163}') || (c
        >= '\u{AC00}' && c <= '\u{D7A3}')
}

fn policy_keeps(policy: Policy, c: char) -> (r: bool)
    ensures
        r == keeps(policy, c),
{
    match policy {
        Policy::Physical => physical_char(c),
        Policy::Export => export_char(c),
    }
}

/// The accepted characters of `s` in their order, with one `_` wherever
/// rejected characters stood between two of them.
pub open spec fn joined_runs(policy: Policy, s: Seq<char>) -> Seq<char>
    decreases s.len(),
{
    if s.len() == 0 {
        Seq::empty()
    } else {
        let head = joined_runs(policy, s.drop_last());
        let c = s.last();
        if !keeps(policy, c) {
            head
        } else if head.len() > 0 && !keeps(policy, s[s.len() - 2]) {
            head.push('_').push(c)
        } else {
            head.push(c)
        }
    }
}

/// The token of the physical policy for a name nothing of which is left.
pub open spec fn physical_fallback() -> Seq<char> {
    "unnamed"@
}

/// The token of the export policy for a name nothing of which is left.
pub open spec fn export_fallback() -> Seq<char> {
    "entity"@
}

/// The storage identifier for a name that is in lower case already.
pub open spec fn physical_token(lowered: Seq<char>) -> Seq<char> {
    let body = joined_runs(Policy::Physical, lowered);
    if body.len() == 0 {
        physical_fallback()
    } else {
        body
    }
}

/// The export token for a name.
pub open spec fn export_token(name: Seq<char>) -> Seq<char> {
    let body = joined_runs(Policy::Export, name);
    if body.len() == 0 {
        export_fallback()
    } else {
        body
    }
}

/// The shape of a token: only accepted characters and `_`; an accepted
/// character at either end; an accepted character on both sides of each `_`.
pub open spec fn is_token(policy: Policy, t: Seq<char>) -> bool {
    &&& t.len() > 0
    &&& forall|i: int| 0 <= i < t.len() ==> keeps(policy, #[trigger] t[i]) || t[i] == '_'
    &&& keeps(policy, t[0])
    &&& keeps(policy, t.last())
    &&& forall|i: int|
        0 < i < t.len() && #[trigger] t[i] == '_' ==> keeps(policy, t[i - 1]) && keeps(
            policy,
            t[i + 1],
        )
}

/// What `joined_runs` gives is empty or a token.
pub proof fn joined_runs_shape(policy: Policy, s: Seq<char>)
    ensures
        joined_runs(policy, s).len() == 0 || is_token(policy, joined_runs(policy, s)),
        joined_runs(policy, s).len() == 0 <==> forall|i: int|
            0 <= i < s.len() ==> !keeps(policy, #[trigger] s[i]),
    decreases s.len(),
{
    if s.len() > 0 {
        let init = s.drop_last();
        joined_runs_shape(policy, init);
        let head = joined_runs(policy, init);
        let t = joined_runs(policy, s);
        let c = s.last();
        if keeps(policy, c) {
            assert(keeps(policy, s[s.len() - 1]));
            if head.len() > 0 && !keeps(policy, s[s.len() - 2]) {
                assert(t == head.push('_').push(c));
                assert forall|i: int| 0 < i < t.len() && #[trigger] t[i] == '_' implies keeps(
                    policy,
                    t[i - 1],
                ) && keeps(policy, t[i + 1]) by {
                    if i < head.len() {
                        assert(head[i] == '_');
                    }
                }
            } else {
                assert(t == head.push(c));
                assert forall|i: int| 0 < i < t.len() && #[trigger] t[i] == '_' implies keeps(
                    policy,
                    t[i - 1],
                ) && keeps(policy, t[i + 1]) by {
                    assert(head[i] == '_');
                }
            }
        } else {
            assert forall|i: int| 0 <= i < init.len() implies init[i] == s[i] by {}
            if head.len() == 0 {
                assert forall|i: int| 0 <= i < s.len() implies !keeps(policy, #[trigger] s[i]) by {
                    if i < init.len() {
                        assert(!keeps(policy, init[i]));
                    }
                }
            } else {
                let i = choose|i: int| 0 <= i < init.len() && keeps(policy, #[trigger] init[i]);
                assert(keeps(policy, s[i]));
            }
        }
    }
}

/// The beginning of a token: only accepted characters and `_`, an accepted
/// character first, and an accepted character before each `_`.
spec fn is_token_start(policy: Policy, t: Seq<char>) -> bool {
    &&& forall|i: int| 0 <= i < t.len() ==> keeps(policy, #[trigger] t[i]) || t[i] == '_'
    &&& t.len() > 0 ==> keeps(policy, t[0])
    &&& forall|i: int| 0 < i < t.len() && #[trigger] t[i] == '_' ==> keeps(policy, t[i - 1])
}

proof fn lemma_joined_runs_of_start(policy: Policy, t: Seq<char>)
    requires
        is_token_start(policy, t),
    ensures
        joined_runs(policy, t) == if t.len() > 0 && t.last() == '_' {
            t.drop_last()
        } else {
            t
        },
    decreases t.len(),
{
    if t.len() > 0 {
        let init = t.drop_last();
        let c = t.last();
        assert forall|i: int| 0 <= i < init.len() implies init[i] == t[i] by {}
        assert(is_token_start(policy, init)) by {
            assert forall|i: int| 0 < i < init.len() && #[trigger] init[i] == '_' implies keeps(
                policy,
                init[i - 1],
            ) by {
                assert(t[i] == '_');
            }
        }
        lemma_joined_runs_of_start(policy, init);
        if keeps(policy, c) {
            if init.len() > 0 && init.last() == '_' {
                assert(t[t.len() - 2] == '_');
                assert(init.drop_last().push('_').push(c) =~= t);
            } else {
                assert(init.push(c) =~= t);
            }
        } else {
            assert(t[t.len() - 1] == '_');
        }
    }
}

/// A token given to its policy comes out as it is.
pub proof fn token_is_kept(policy: Policy, t: Seq<char>)
    requires
        is_token(policy, t),
    ensures
        joined_runs(policy, t) == t,
{
    lemma_joined_runs_of_start(policy, t);
}

/// The storage identifier of a storage identifier is itself.
pub proof fn physical_token_is_idempotent(lowered: Seq<char>)
    ensures
        physical_token(physical_token(lowered)) == physical_token(lowered),
{
    physical_token_is_token(lowered);
    token_is_kept(Policy::Physical, physical_token(lowered));
}

/// The export token of an export token is itself.
pub proof fn export_token_is_idempotent(name: Seq<char>)
    ensures
        export_token(export_token(name)) == export_token(name),
{
    export_token_is_token(name);
    token_is_kept(Policy::Export, export_token(name));
}

/// The physical policy always gives a token: it is never empty, starts and
/// ends with a lower-case letter or a digit, and holds nothing but those
/// and single `_` between them.
pub proof fn physical_token_is_token(lowered: Seq<char>)
    ensures
        is_token(Policy::Physical, physical_token(lowered)),
{
    joined_runs_shape(Policy::Physical, lowered);
    reveal_strlit("unnamed");
}

/// The export policy always gives a token: it is never empty, starts and
/// ends with an accepted character, and holds nothing but those and single
/// `_` between them.
pub proof fn export_token_is_token(name: Seq<char>)
    ensures
        is_token(Policy::Export, export_token(name)),
{
    joined_runs_shape(Policy::Export, name);
    reveal_strlit("entity");
}

/// A token of the physical policy is made of ASCII characters.
pub proof fn physical_token_is_ascii(lowered: Seq<char>)
    ensures
        forall|i: int|
            0 <= i < physical_token(lowered).len() ==> (#[trigger] physical_token(lowered)[i])
                <= '\u{7F}',
{
    physical_token_is_token(lowered);
    let t = physical_token(lowered);
    assert forall|i: int| 0 <= i < t.len() implies (#[trigger] t[i]) <= '\u{7F}' by {
        assert(keeps(Policy::Physical, t[i]) || t[i] == '_');
    }
}

fn token_body(policy: Policy, s: &str) -> (out: String)
    ensures
        out@ == joined_runs(policy, s@),
{
    let mut out = String::new();
    let mut gap: bool = false;
    let mut started: bool = false;
    for c in it: s.chars()
        invariant
            it.seq() == s@,
            out@ == joined_runs(policy, s@.take(it.index() as int)),
            started == (out@.len() > 0),
            gap == (it.index() > 0 && !keeps(policy, s@[it.index() - 1])),
    {
        proof {
            let i = it.index() as int;
            let next = s@.take(i + 1);
            assert(next.drop_last() =~= s@.take(i));
            assert(next.last() == c);
            if i > 0 {
                assert(next[next.len() - 2] == s@[i - 1]);
            }
        }
        if policy_keeps(policy, c) {
            if gap && started {
                out.push('_');
            }
            out.push(c);
            started = true;
            gap = false;
        } else {
            gap = true;
        }
    }
    proof {
        assert(s@.take(s@.len() as int) =~= s@);
    }
    out
}

/// The storage identifier for a name that is in lower case already.
pub fn physical_token_of(lowered: &str) -> (out: String)
    ensures
        out@ == physical_token(lowered@),
        out@.len() > 0,
{
    let body = token_body(Policy::Physical, lowered);
    proof {
        physical_token_is_token(lowered@);
    }
    if body.as_str().is_empty() {
        "unnamed".to_owned()
    } else {
        body
    }
}

/// The physical policy: the storage identifier for a display name. The name
/// is put in lower case first; of the result only ASCII letters and digits
/// stay.
pub fn sanitize_physical(name: &str) -> (out: String)
    ensures
        out@ == physical_token(lowercase_of(name@)),
        out@.len() > 0,
{
    let lowered = lowercase(name);
    physical_token_of(lowered.as_str())
}

/// The export policy: the token that stands for a name in a rendered text.
/// Case stays as it is.
pub fn sanitize_name(name: &str) -> (out: String)
    ensures
        out@ == export_token(name@),
        out@.len() > 0,
{
    let body = token_body(Policy::Export, name);
    proof {
        export_token_is_token(name@);
    }
    if body.as_str().is_empty() {
        "entity".to_owned()
    } else {
        body
    }
}

} // verus!
