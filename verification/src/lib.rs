//! Combining a configured URL path prefix with a route's own path.
//!
//! The prefix is normalized first: every trailing `'/'` is removed, and a
//! single leading `'/'` is put in front unless the stripped prefix is empty
//! or already starts with one.  The normalized prefix is then concatenated
//! with the route path; a prefix that normalizes to nothing leaves the route
//! path exactly as it was given.

use vstd::prelude::*;

verus! {

/// `s` with every trailing `'/'` removed.
pub open spec fn strip_trailing_slashes(s: Seq<char>) -> Seq<char>
    decreases s.len(),
{
    if s.len() > 0 && s.last() == '/' {
        strip_trailing_slashes(s.drop_last())
    } else {
        s
    }
}

/// The prefix as it takes part in the combined path: trailing slashes are
/// stripped, and a single `'/'` is put in front unless the stripped prefix
/// is empty or already starts with one.
pub open spec fn normalized_prefix(s: Seq<char>) -> Seq<char> {
    let raw = strip_trailing_slashes(s);
    if raw.len() == 0 || raw[0] == '/' {
        raw
    } else {
        seq!['/'] + raw
    }
}

/// The externally exposed path of a route: the normalized prefix followed by
/// the route's own path, or the route path alone when the prefix normalizes
/// to nothing.
pub open spec fn combined_path(prefix: Seq<char>, spec_path: Seq<char>) -> Seq<char> {
    let p = normalized_prefix(prefix);
    if p.len() == 0 {
        spec_path
    } else {
        p + spec_path
    }
}

/// Normalize a prefix path and prepend it to a spec path.
///
/// Ensures the prefix has a leading `/` (unless empty) and no trailing `/`,
/// then concatenates it with the given spec path.
pub fn prefixed_path(prefix_path: &str, spec_path: &str) -> (r: String)
    ensures
        r@ == combined_path(prefix_path@, spec_path@),
{
    let n: usize = prefix_path.unicode_len();
    let mut end: usize = n;
    proof {
        assert(prefix_path@.take(n as int) =~= prefix_path@);
    }
    loop
        invariant
            end <= n,
            n == prefix_path@.len(),
            strip_trailing_slashes(prefix_path@) == strip_trailing_slashes(
                prefix_path@.take(end as int),
            ),
        ensures
            end <= n,
            n == prefix_path@.len(),
            strip_trailing_slashes(prefix_path@) == prefix_path@.take(end as int),
        decreases end,
    {
        if end == 0 {
            break;
        }
        let c = prefix_path.get_char(end - 1);
        if c != '/' {
            break;
        }
        proof {
            assert(prefix_path@.take(end as int).drop_last() =~= prefix_path@.take(end - 1));
        }
        end = end - 1;
    }
    let raw_prefix: &str = prefix_path.substring_char(0, end);
    if raw_prefix.is_empty() {
        spec_path.to_owned()
    } else if raw_prefix.get_char(0) == '/' {
        raw_prefix.to_owned().concat(spec_path)
    } else {
        proof {
            reveal_strlit("/");
            assert("/"@ =~= seq!['/']);
        }
        "/".to_owned().concat(raw_prefix).concat(spec_path)
    }
}

/// Stripping shortens a sequence at most, leaves the first character alone,
/// leaves no trailing `'/'`, and is idempotent.
proof fn lemma_strip_fixed_point(s: Seq<char>)
    ensures
        strip_trailing_slashes(s).len() <= s.len(),
        strip_trailing_slashes(s).len() > 0 ==> strip_trailing_slashes(s)[0] == s[0],
        strip_trailing_slashes(s).len() > 0 ==> strip_trailing_slashes(s).last() != '/',
        strip_trailing_slashes(strip_trailing_slashes(s)) == strip_trailing_slashes(s),
    decreases s.len(),
{
    if s.len() > 0 && s.last() == '/' {
        lemma_strip_fixed_point(s.drop_last());
    }
}

/// A law of the combination: an empty prefix leaves the route path unchanged.
pub proof fn lemma_empty_prefix(spec_path: Seq<char>)
    ensures
        combined_path(Seq::<char>::empty(), spec_path) == spec_path,
{
}

/// A law of the combination: a prefix made of `'/'` characters alone
/// (the empty prefix included) leaves the route path unchanged.
pub proof fn lemma_all_slash_prefix(prefix: Seq<char>, spec_path: Seq<char>)
    requires
        forall|i: int| 0 <= i < prefix.len() ==> prefix[i] == '/',
    ensures
        combined_path(prefix, spec_path) == spec_path,
    decreases prefix.len(),
{
    if prefix.len() > 0 {
        lemma_all_slash_prefix(prefix.drop_last(), spec_path);
    }
}

/// A law of the combination: a non-empty prefix without a trailing `'/'` is
/// used as it stands — put in front of the route path directly when it starts
/// with `'/'`, behind a single added `'/'` otherwise.
pub proof fn lemma_plain_prefix(prefix: Seq<char>, spec_path: Seq<char>)
    requires
        prefix.len() > 0,
        prefix.last() != '/',
    ensures
        prefix[0] == '/' ==> combined_path(prefix, spec_path) == prefix + spec_path,
        prefix[0] != '/' ==> combined_path(prefix, spec_path) == seq!['/'] + prefix + spec_path,
{
}

/// A law of the combination: trailing slashes on the prefix never affect the
/// output — the stripped prefix, and likewise the fully normalized prefix,
/// combines with the route path exactly as the original prefix does.
pub proof fn lemma_normalization_idempotent(prefix: Seq<char>, spec_path: Seq<char>)
    ensures
        combined_path(strip_trailing_slashes(prefix), spec_path) == combined_path(
            prefix,
            spec_path,
        ),
        combined_path(normalized_prefix(prefix), spec_path) == combined_path(prefix, spec_path),
{
    lemma_strip_fixed_point(prefix);
    let raw = strip_trailing_slashes(prefix);
    if raw.len() > 0 && raw[0] != '/' {
        let np = seq!['/'] + raw;
        lemma_strip_fixed_point(np);
    }
}

/// A law of the combination: it is deterministic — equal inputs give equal
/// outputs.
pub proof fn lemma_deterministic(
    prefix_a: Seq<char>,
    spec_path_a: Seq<char>,
    prefix_b: Seq<char>,
    spec_path_b: Seq<char>,
)
    requires
        prefix_a == prefix_b,
        spec_path_a == spec_path_b,
    ensures
        combined_path(prefix_a, spec_path_a) == combined_path(prefix_b, spec_path_b),
{
}

} // verus!
