use vstd::prelude::*;

verus! {

/// What becomes of a fragment (`#...`) on a resolved link.
#[derive(Clone, Copy, Debug, PartialEq, Eq, Structural)]
pub enum FragmentPolicy {
    /// The fragment stays part of the URL, so `p#a` and `p#b` are distinct.
    Keep,
    /// The fragment is removed and not put back.
    Strip,
}

/// The serialisation of the URL that `href` denotes relative to `base`, as
/// the `url` crate computes it; `None` where `base` is no absolute URL or the
/// join fails.
pub uninterp spec fn joined(base: Seq<char>, href: Seq<char>) -> Option<Seq<char>>;

/// As `joined`, with the fragment of the joined URL removed.
pub uninterp spec fn joined_unfragmented(base: Seq<char>, href: Seq<char>) -> Option<Seq<char>>;

/// The characters of an optional string.
pub open spec fn opt_text(r: Option<String>) -> Option<Seq<char>> {
    match r {
        Some(s) => Some(s@),
        None => None,
    }
}

/// Relies on `url::Url::parse` (of `base`) and `url::Url::join` (of `href`
/// onto it), then `url::Url::set_fragment(None)`: the serialisation of the
/// joined URL, then that of the same URL without its fragment; `None` where
/// the parse or the join fails.
#[verifier::external_body]
fn join_url(base: &str, href: &str) -> (r: Option<(String, String)>)
    ensures
        r is Some <==> joined(base@, href@) is Some,
        r is Some <==> joined_unfragmented(base@, href@) is Some,
        r matches Some(p) ==> joined(base@, href@) == Some(p.0@),
        r matches Some(p) ==> joined_unfragmented(base@, href@) == Some(p.1@),
{
    match url::Url::parse(base) {
        Ok(b) => match b.join(href) {
            Ok(mut u) => {
                let whole = String::from(u.as_str());
                u.set_fragment(None);
                Some((whole, String::from(u)))
            },
            Err(_) => None,
        },
        Err(_) => None,
    }
}

/// The join that `policy` asks for.
pub open spec fn joined_under(policy: FragmentPolicy, base: Seq<char>, href: Seq<char>) -> Option<
    Seq<char>,
> {
    match policy {
        FragmentPolicy::Keep => joined(base, href),
        FragmentPolicy::Strip => joined_unfragmented(base, href),
    }
}

/// The joined URL where there is one, else the raw link.
pub open spec fn or_raw(joined: Option<Seq<char>>, href: Seq<char>) -> Seq<char> {
    match joined {
        Some(u) => u,
        None => href,
    }
}

/// The absolute URL that `href` on the page at `base` stands for; the raw
/// link where it cannot be resolved.
pub open spec fn resolved(policy: FragmentPolicy, base: Seq<char>, href: Seq<char>) -> Seq<char> {
    or_raw(joined_under(policy, base, href), href)
}

/// Given the outcome of joining (`None` for a failure), the string that
/// stands for the link: the joined URL, or else `href` verbatim.
pub fn resolution_or_raw(joined: Option<String>, href: &str) -> (r: String)
    ensures
        r@ == or_raw(opt_text(joined), href@),
{
    match joined {
        Some(u) => u,
        None => href.to_string(),
    }
}

/// Resolves `href` against the page URL `base`. Resolution never fails the
/// caller: where `base` is not an absolute URL or the join fails, `href` is
/// returned as it is.
pub fn resolve_url(base: &str, href: &str, policy: FragmentPolicy) -> (r: String)
    ensures
        r@ == resolved(policy, base@, href@),
{
    let j = match join_url(base, href) {
        Some((whole, unfragmented)) => match policy {
            FragmentPolicy::Keep => Some(whole),
            FragmentPolicy::Strip => Some(unfragmented),
        },
        None => None,
    };
    resolution_or_raw(j, href)
}

/// Resolution is deterministic: equal base URLs, links and policies give
/// equal results.
pub proof fn lemma_resolve_deterministic(
    policy: FragmentPolicy,
    base1: Seq<char>,
    href1: Seq<char>,
    base2: Seq<char>,
    href2: Seq<char>,
)
    requires
        base1 == base2,
        href1 == href2,
    ensures
        resolved(policy, base1, href1) == resolved(policy, base2, href2),
{
}

} // verus!
