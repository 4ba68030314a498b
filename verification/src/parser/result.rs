//! Results and errors of the parsers, and their meaning over byte sequences.
use vstd::prelude::*;

verus! {

/// Why a parser stopped.
#[derive(Debug, Clone, Copy, PartialEq, Eq)]
pub enum ErrorKind {
    /// The input ended before the parser had read what it needed.
    Eof,
    /// A value was read but it is not one the format allows.
    Verify,
}

/// A failed parse: the input at the point of failure and the reason.
#[derive(Debug, PartialEq, Eq)]
pub struct ParseError<'a> {
    pub input: &'a [u8],
    pub code: ErrorKind,
}

/// On success, the input left after the parsed value, and the value.
pub type PResult<'a, T> = Result<(&'a [u8], T), ParseError<'a>>;

/// The meaning of a parse over byte sequences: the bytes left and the value's model,
/// or the bytes at the point of failure and the reason.
pub type SpecResult<V> = Result<(Seq<u8>, V), (Seq<u8>, ErrorKind)>;

/// The model of an executable parse result.
pub open spec fn presult_view<'a, T: View>(r: PResult<'a, T>) -> SpecResult<T::V> {
    match r {
        Ok((rest, v)) => Ok((rest@, v@)),
        Err(e) => Err((e.input@, e.code)),
    }
}

/// The model of a parse result whose value is mapped to its model by `f`.
pub open spec fn presult_map<'a, T, V>(r: PResult<'a, T>, f: spec_fn(T) -> V) -> SpecResult<V> {
    match r {
        Ok((rest, v)) => Ok((rest@, f(v))),
        Err(e) => Err((e.input@, e.code)),
    }
}

/// `n` consecutive items parsed by `p`, the first from `s`, each next one from what
/// the previous one left; the first failure is the result.
pub open spec fn spec_count<V>(p: spec_fn(Seq<u8>) -> SpecResult<V>, s: Seq<u8>, n: nat) -> SpecResult<Seq<V>>
    decreases n,
{
    if n == 0 {
        Ok((s, Seq::empty()))
    } else {
        match spec_count(p, s, (n - 1) as nat) {
            Err(e) => Err(e),
            Ok((r, vs)) => match p(r) {
                Err(e) => Err(e),
                Ok((r2, v)) => Ok((r2, vs.push(v))),
            },
        }
    }
}

/// Once a repetition has failed, asking for more items gives the same failure.
pub proof fn lemma_count_err<V>(p: spec_fn(Seq<u8>) -> SpecResult<V>, s: Seq<u8>, i: nat, n: nat)
    requires
        i <= n,
        spec_count(p, s, i) is Err,
    ensures
        spec_count(p, s, n) == spec_count(p, s, i),
    decreases n - i,
{
    if i < n {
        lemma_count_err(p, s, i, (n - 1) as nat);
    }
}

/// A successful repetition yields exactly the number of items asked for.
pub proof fn lemma_count_len<V>(p: spec_fn(Seq<u8>) -> SpecResult<V>, s: Seq<u8>, n: nat)
    ensures
        spec_count(p, s, n) matches Ok((_, vs)) ==> vs.len() == n,
    decreases n,
{
    if n > 0 {
        lemma_count_len(p, s, (n - 1) as nat);
    }
}

/// `t` is what is left of `s` after a prefix of it.
pub open spec fn is_suffix(t: Seq<u8>, s: Seq<u8>) -> bool {
    t.len() <= s.len() && t =~= s.skip(s.len() - t.len())
}

/// A suffix of a suffix is a suffix.
pub proof fn lemma_suffix_trans(a: Seq<u8>, b: Seq<u8>, c: Seq<u8>)
    requires
        is_suffix(a, b),
        is_suffix(b, c),
    ensures
        is_suffix(a, c),
{
    assert(a =~= c.skip(c.len() - a.len()));
}

/// A parse result whose remaining input (on success) and failure point (on error)
/// both lie within `s`, as suffixes of it.
pub open spec fn stays_within<V>(s: Seq<u8>, r: SpecResult<V>) -> bool {
    match r {
        Ok((rest, _)) => is_suffix(rest, s),
        Err((at, _)) => is_suffix(at, s),
    }
}

/// A parser whose every result stays within its input.
pub open spec fn always_within<V>(p: spec_fn(Seq<u8>) -> SpecResult<V>) -> bool {
    forall|t: Seq<u8>| #[trigger] stays_within(t, p(t))
}

/// Repeating a parser whose results stay within its input gives results that stay
/// within the input.
pub proof fn lemma_count_within<V>(p: spec_fn(Seq<u8>) -> SpecResult<V>, s: Seq<u8>, n: nat)
    requires
        always_within(p),
    ensures
        stays_within(s, spec_count(p, s, n)),
    decreases n,
{
    if n > 0 {
        lemma_count_within(p, s, (n - 1) as nat);
        if let Ok((r, _)) = spec_count(p, s, (n - 1) as nat) {
            assert(stays_within(r, p(r)));
            match p(r) {
                Ok((r2, _)) => lemma_suffix_trans(r2, r, s),
                Err((at, _)) => lemma_suffix_trans(at, r, s),
            }
        }
    }
}

/// Appending bytes after a successful parse leaves the value unchanged and appends
/// the same bytes to what is left.
pub open spec fn append_stable<V>(r: SpecResult<V>, r2: SpecResult<V>, t: Seq<u8>) -> bool {
    r matches Ok((rest, v)) ==> r2 == Ok::<(Seq<u8>, V), (Seq<u8>, ErrorKind)>((rest + t, v))
}

/// A parser whose successes do not depend on what follows the bytes they read.
pub open spec fn always_append_stable<V>(p: spec_fn(Seq<u8>) -> SpecResult<V>) -> bool {
    forall|s: Seq<u8>, t: Seq<u8>| #[trigger] append_stable(p(s), p(s + t), t)
}

/// Repetition keeps append stability.
pub proof fn lemma_count_append<V>(p: spec_fn(Seq<u8>) -> SpecResult<V>, s: Seq<u8>, t: Seq<u8>, n: nat)
    requires
        always_append_stable(p),
    ensures
        append_stable(spec_count(p, s, n), spec_count(p, s + t, n), t),
    decreases n,
{
    if n > 0 {
        lemma_count_append(p, s, t, (n - 1) as nat);
        if let Ok((r, _)) = spec_count(p, s, (n - 1) as nat) {
            assert(append_stable(p(r), p(r + t), t));
        }
    }
}

/// What stays within a suffix of `s` stays within `s`.
pub proof fn lemma_within_suffix<V>(s: Seq<u8>, s1: Seq<u8>, r: SpecResult<V>)
    requires
        is_suffix(s1, s),
        stays_within(s1, r),
    ensures
        stays_within(s, r),
{
    match r {
        Ok((rest, _)) => lemma_suffix_trans(rest, s1, s),
        Err((at, _)) => lemma_suffix_trans(at, s1, s),
    }
}

} // verus!
