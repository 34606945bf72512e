use crate::resolve::{resolve_url, resolved, FragmentPolicy};
use vstd::prelude::*;
use vstd::string::*;

verus! {

/// Whether `scraper` accepts `selector` as a CSS selector list.
pub uninterp spec fn selector_parses(selector: Seq<char>) -> bool;

/// For each element of the HTML document `body` that `selector` matches, in
/// the order that scraper's `select` yields them, the value of its attribute `attr` (`None` where absent),
/// as `scraper` finds them.
pub uninterp spec fn selected_attrs(body: Seq<char>, selector: Seq<char>, attr: Seq<char>) -> Seq<
    Option<Seq<char>>,
>;

/// The characters of each string.
pub open spec fn texts(v: Seq<String>) -> Seq<Seq<char>> {
    v.map_values(|s: String| s@)
}

/// The characters of each optional string.
pub open spec fn opt_texts(v: Seq<Option<String>>) -> Seq<Option<Seq<char>>> {
    v.map_values(|o: Option<String>| crate::resolve::opt_text(o))
}

/// Relies on `scraper::Selector::parse`: whether it accepts `selector`.
#[verifier::external_body]
fn selector_is_valid(selector: &str) -> (r: bool)
    ensures
        r == selector_parses(selector@),
{
    scraper::Selector::parse(selector).is_ok()
}

/// Relies on `scraper::Selector::parse` of `selector`, `scraper::Html::parse_document`
/// of `body`, `scraper::Html::select` (matching elements in the order it yields them) and
/// `scraper::node::Element::attr` of `attr` on each. `None` where the selector
/// does not parse.
#[verifier::external_body]
fn select_attrs(body: &str, selector: &str, attr: &str) -> (r: Option<Vec<Option<String>>>)
    ensures
        r is Some <==> selector_parses(selector@),
        r is Some ==> opt_texts(r->0@) == selected_attrs(body@, selector@, attr@),
{
    let sel = scraper::Selector::parse(selector).ok()?;
    let doc = scraper::Html::parse_document(body);
    Some(doc.select(&sel).map(|e| e.value().attr(attr).map(String::from)).collect())
}

/// The selector for anchors that carry a link target, leaving out those of
/// the class `exclusion` where one is given.
pub open spec fn link_selector(exclusion: Option<Seq<char>>) -> Seq<char> {
    match exclusion {
        None => "a[href]"@,
        Some(class) => "a[href]:not(."@ + class + ")"@,
    }
}

/// The attribute that holds a link target.
pub open spec fn target_attr() -> Seq<char> {
    "href"@
}

/// Builds the selector text of `link_selector`.
pub fn link_selector_for(exclusion: &Option<String>) -> (r: String)
    ensures
        r@ == link_selector(crate::resolve::opt_text(*exclusion)),
{
    match exclusion {
        None => String::from_str("a[href]"),
        Some(class) => {
            let mut s = String::from_str("a[href]:not(.");
            s.append(class.as_str());
            s.append(")");
            s
        },
    }
}

/// Whether the link selector for `exclusion` is accepted.
pub fn link_selector_is_valid(exclusion: &Option<String>) -> (r: bool)
    ensures
        r == selector_parses(link_selector(crate::resolve::opt_text(*exclusion))),
{
    let sel = link_selector_for(exclusion);
    selector_is_valid(sel.as_str())
}

/// `s` with later repeats of an element left out.
pub open spec fn dedup(s: Seq<Seq<char>>) -> Seq<Seq<char>>
    decreases s.len(),
{
    if s.len() == 0 {
        s
    } else {
        let d = dedup(s.drop_last());
        if d.contains(s.last()) {
            d
        } else {
            d.push(s.last())
        }
    }
}

/// The present targets, each resolved against `page`, in order.
pub open spec fn resolved_targets(
    page: Seq<char>,
    targets: Seq<Option<Seq<char>>>,
    policy: FragmentPolicy,
) -> Seq<Seq<char>>
    decreases targets.len(),
{
    if targets.len() == 0 {
        Seq::empty()
    } else {
        let rest = resolved_targets(page, targets.drop_last(), policy);
        match targets.last() {
            Some(h) => rest.push(resolved(policy, page, h)),
            None => rest,
        }
    }
}

/// The links that a page holds: its selected targets resolved, without repeats.
pub open spec fn page_links(
    page: Seq<char>,
    targets: Seq<Option<Seq<char>>>,
    policy: FragmentPolicy,
) -> Seq<Seq<char>> {
    dedup(resolved_targets(page, targets, policy))
}

/// Whether one of `v` has the characters of `s`.
pub fn contains_text(v: &Vec<String>, s: &String) -> (r: bool)
    ensures
        r == texts(v@).contains(s@),
{
    let mut i: usize = 0;
    while i < v.len()
        invariant
            i <= v.len(),
            forall|j: int| 0 <= j < i ==> v@[j]@ != s@,
        decreases v.len() - i,
    {
        if v[i] == *s {
            assert(texts(v@)[i as int] == s@);
            return true;
        }
        i = i + 1;
    }
    assert(!texts(v@).contains(s@)) by {
        if texts(v@).contains(s@) {
            let k = choose|k: int| 0 <= k < texts(v@).len() && texts(v@)[k] == s@;
            assert(v@[k]@ == s@);
        }
    }
    false
}

/// Resolves the targets found on the page at `page_url` and drops repeats,
/// keeping the first of each.
pub fn collect_links(page_url: &str, targets: &Vec<Option<String>>, policy: FragmentPolicy) -> (r:
    Vec<String>)
    ensures
        texts(r@) == page_links(page_url@, opt_texts(targets@), policy),
{
    let mut links: Vec<String> = Vec::new();
    let mut i: usize = 0;
    while i < targets.len()
        invariant
            i <= targets.len(),
            texts(links@) == dedup(
                resolved_targets(page_url@, opt_texts(targets@).subrange(0, i as int), policy),
            ),
        decreases targets.len() - i,
    {
        let ghost ts = opt_texts(targets@);
        let ghost rest = resolved_targets(page_url@, ts.subrange(0, i as int), policy);
        assert(ts.subrange(0, i + 1).drop_last() == ts.subrange(0, i as int));
        assert(ts.subrange(0, i + 1).last() == ts[i as int]);
        match &targets[i] {
            Some(href) => {
                let link = resolve_url(page_url, href.as_str(), policy);
                assert(resolved_targets(page_url@, ts.subrange(0, i + 1), policy) == rest.push(
                    link@,
                ));
                assert(rest.push(link@).drop_last() == rest);
                if !contains_text(&links, &link) {
                    let ghost before = links@;
                    links.push(link);
                    assert(texts(links@) == texts(before).push(link@));
                }
            },
            None => {
                assert(resolved_targets(page_url@, ts.subrange(0, i + 1), policy) == rest);
            },
        }
        i = i + 1;
    }
    assert(opt_texts(targets@).subrange(0, targets.len() as int) == opt_texts(targets@));
    links
}

/// Why links could not be taken from a page.
#[derive(Clone, Copy, Debug, PartialEq, Eq, Structural)]
pub enum LinkError {
    /// The link selector is not a valid CSS selector: a configuration fault.
    InvalidSelector,
}

/// The links of the HTML document `body` fetched from `page_url`: the target
/// of every anchor with one, except anchors of the class `exclusion`, each
/// resolved against `page_url` under `policy`, without repeats.
pub fn extract_links(
    page_url: &str,
    body: &str,
    exclusion: &Option<String>,
    policy: FragmentPolicy,
) -> (r: Result<Vec<String>, LinkError>)
    ensures
        r is Err <==> !selector_parses(link_selector(crate::resolve::opt_text(*exclusion))),
        r matches Ok(v) ==> texts(v@) == page_links(
            page_url@,
            selected_attrs(
                body@,
                link_selector(crate::resolve::opt_text(*exclusion)),
                target_attr(),
            ),
            policy,
        ),
{
    let sel = link_selector_for(exclusion);
    match select_attrs(body, sel.as_str(), "href") {
        None => Err(LinkError::InvalidSelector),
        Some(targets) => {
            proof {
                reveal_strlit("href");
            }
            Ok(collect_links(page_url, &targets, policy))
        },
    }
}

} // verus!
