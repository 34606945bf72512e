use crate::links::{
    contains_text, extract_links, link_selector, link_selector_is_valid, page_links,
    selected_attrs, selector_parses, target_attr, texts, LinkError,
};
use crate::resolve::{opt_text, FragmentPolicy};
use vstd::prelude::*;

verus! {

/// Which discovered links are queued for a visit.
#[derive(Clone, Copy, Debug, PartialEq, Eq, Structural)]
pub enum ScopeMode {
    /// Only links whose text starts with the seed URL.
    SeedPrefix,
    /// Every link.
    Everything,
}

/// Which visited pages have their links taken.
#[derive(Clone, Copy, Debug, PartialEq, Eq, Structural)]
pub enum ExpansionMode {
    /// Only the first page that is fetched successfully.
    SeedOnly,
    /// Every page whose probe succeeds.
    EveryPage,
}

/// How a crawl runs.
pub struct CrawlConfig {
    /// Where the crawl starts; also the prefix of the `SeedPrefix` scope.
    pub seed_url: String,
    pub scope: ScopeMode,
    pub expansion: ExpansionMode,
    /// Anchors of this class are ignored.
    pub exclusion_class: Option<String>,
    pub fragment_policy: FragmentPolicy,
}

/// What the crawler asks its driver to do next.
pub enum Action {
    /// Request the URL and report whether a response (of any status) came.
    Probe(String),
    /// Fetch the URL's body and report it, or its absence on failure.
    Fetch(String),
    /// The frontier is empty: the crawl is over.
    Done,
}

/// What the driver reports to the crawler.
pub enum Event {
    /// Begin (or resume) the crawl.
    Start,
    /// The outcome of the last probe: whether a response came.
    Probed(bool),
    /// The body fetched for the last `Fetch`, or `None` where the fetch failed.
    Fetched(Option<String>),
}

/// Where a crawl stands.
pub enum Phase {
    /// Between steps: the next URL is to be taken from the frontier.
    Idle,
    /// Waiting for the probe of this URL.
    Probing(String),
    /// Waiting for the body of this URL.
    Expanding(String),
    /// The frontier ran empty.
    Finished,
}

/// An `Action` with its URL as characters.
pub enum ActionView {
    Probe(Seq<char>),
    Fetch(Seq<char>),
    Done,
}

/// An `Event` with its body as characters.
pub enum EventView {
    Start,
    Probed(bool),
    Fetched(Option<Seq<char>>),
}

/// A `Phase` with its URL as characters.
pub enum PhaseView {
    Idle,
    Probing(Seq<char>),
    Expanding(Seq<char>),
    Finished,
}

impl View for Action {
    type V = ActionView;

    open spec fn view(&self) -> ActionView {
        match self {
            Action::Probe(u) => ActionView::Probe(u@),
            Action::Fetch(u) => ActionView::Fetch(u@),
            Action::Done => ActionView::Done,
        }
    }
}

impl View for Event {
    type V = EventView;

    open spec fn view(&self) -> EventView {
        match self {
            Event::Start => EventView::Start,
            Event::Probed(ok) => EventView::Probed(*ok),
            Event::Fetched(body) => EventView::Fetched(opt_text(*body)),
        }
    }
}

impl View for Phase {
    type V = PhaseView;

    open spec fn view(&self) -> PhaseView {
        match self {
            Phase::Idle => PhaseView::Idle,
            Phase::Probing(u) => PhaseView::Probing(u@),
            Phase::Expanding(u) => PhaseView::Expanding(u@),
            Phase::Finished => PhaseView::Finished,
        }
    }
}

/// The state of a crawl: every URL discovered so far (`visited`), those
/// waiting for a visit (`frontier`, used as a stack), the phase, and how many
/// pages have had their links taken.
pub struct CrawlView {
    pub visited: Seq<Seq<char>>,
    pub frontier: Seq<Seq<char>>,
    pub phase: PhaseView,
    pub expanded: usize,
}

/// Whether a discovered link `u` is queued for a visit.
pub open spec fn in_scope(scope: ScopeMode, seed: Seq<char>, u: Seq<char>) -> bool {
    match scope {
        ScopeMode::SeedPrefix => seed.is_prefix_of(u),
        ScopeMode::Everything => true,
    }
}

/// The visited set and frontier after the links of a page are taken in, in
/// order: a link not yet visited is recorded as visited, and pushed onto the
/// frontier where it is in scope; a link already visited changes nothing.
pub open spec fn absorb(
    visited: Seq<Seq<char>>,
    frontier: Seq<Seq<char>>,
    links: Seq<Seq<char>>,
    scope: ScopeMode,
    seed: Seq<char>,
) -> (Seq<Seq<char>>, Seq<Seq<char>>)
    decreases links.len(),
{
    if links.len() == 0 {
        (visited, frontier)
    } else {
        let (v, f) = absorb(visited, frontier, links.drop_last(), scope, seed);
        let u = links.last();
        if v.contains(u) {
            (v, f)
        } else if in_scope(scope, seed, u) {
            (v.push(u), f.push(u))
        } else {
            (v.push(u), f)
        }
    }
}

/// Whether the next page whose probe succeeds is expanded.
pub open spec fn may_expand(expansion: ExpansionMode, expanded: usize) -> bool {
    match expansion {
        ExpansionMode::SeedOnly => expanded == 0,
        ExpansionMode::EveryPage => true,
    }
}

/// Taking the next URL from the frontier: it is probed next; with none left
/// the crawl is finished.
pub open spec fn advance(v: CrawlView) -> (CrawlView, ActionView) {
    if v.frontier.len() == 0 {
        (CrawlView { phase: PhaseView::Finished, ..v }, ActionView::Done)
    } else {
        (
            CrawlView {
                frontier: v.frontier.drop_last(),
                phase: PhaseView::Probing(v.frontier.last()),
                ..v
            },
            ActionView::Probe(v.frontier.last()),
        )
    }
}

/// The links that the page `url` with body `body` yields under `cfg`.
pub open spec fn links_of_page(cfg: CrawlConfig, url: Seq<char>, body: Seq<char>) -> Seq<Seq<char>> {
    page_links(
        url,
        selected_attrs(body, link_selector(opt_text(cfg.exclusion_class)), target_attr()),
        cfg.fragment_policy,
    )
}

/// One step of the crawl: the state and action that follow `v` on `event`.
/// An event that does not fit the phase changes nothing and repeats the
/// pending action.
pub open spec fn step_spec(cfg: CrawlConfig, v: CrawlView, event: EventView) -> (
    CrawlView,
    ActionView,
) {
    match v.phase {
        PhaseView::Idle => advance(v),
        PhaseView::Probing(u) => match event {
            EventView::Probed(ok) => if ok && may_expand(cfg.expansion, v.expanded) {
                (CrawlView { phase: PhaseView::Expanding(u), ..v }, ActionView::Fetch(u))
            } else {
                advance(v)
            },
            _ => (v, ActionView::Probe(u)),
        },
        PhaseView::Expanding(u) => match event {
            EventView::Fetched(None) => advance(v),
            EventView::Fetched(Some(body)) => {
                let (vis, fr) = absorb(
                    v.visited,
                    v.frontier,
                    links_of_page(cfg, u, body),
                    cfg.scope,
                    cfg.seed_url@,
                );
                advance(
                    CrawlView {
                        visited: vis,
                        frontier: fr,
                        phase: PhaseView::Idle,
                        expanded: v.expanded.saturating_add(1),
                    },
                )
            },
            _ => (v, ActionView::Fetch(u)),
        },
        PhaseView::Finished => (v, ActionView::Done),
    }
}

/// Every member of `a` is a member of `b`.
pub open spec fn within(a: Seq<Seq<char>>, b: Seq<Seq<char>>) -> bool {
    forall|i: int| 0 <= i < a.len() ==> b.contains(#[trigger] a[i])
}

/// The invariant of a crawl: no URL is recorded twice, the frontier holds
/// visited URLs only and each once, the seed and the URL in hand are visited,
/// and the link selector is valid.
pub open spec fn crawl_wf(cfg: CrawlConfig, v: CrawlView) -> bool {
    &&& v.visited.no_duplicates()
    &&& v.frontier.no_duplicates()
    &&& within(v.frontier, v.visited)
    &&& v.visited.contains(cfg.seed_url@)
    &&& (v.phase matches PhaseView::Probing(u) ==> v.visited.contains(u))
    &&& (v.phase matches PhaseView::Expanding(u) ==> v.visited.contains(u))
    &&& selector_parses(link_selector(opt_text(cfg.exclusion_class)))
}

proof fn lemma_push_fresh(s: Seq<Seq<char>>, u: Seq<char>)
    requires
        s.no_duplicates(),
        !s.contains(u),
    ensures
        s.push(u).no_duplicates(),
{
    assert forall|i: int, j: int| 0 <= i < s.push(u).len() && 0 <= j < s.push(u).len() && i != j
        implies s.push(u)[i] != s.push(u)[j] by {
        if i == s.len() {
            assert(s.contains(s[j]));
        } else if j == s.len() {
            assert(s.contains(s[i]));
        }
    }
}

proof fn lemma_within_push(a: Seq<Seq<char>>, b: Seq<Seq<char>>, u: Seq<char>)
    requires
        within(a, b),
    ensures
        within(a, b.push(u)),
        within(a.push(u), b.push(u)),
{
    assert forall|i: int| 0 <= i < a.push(u).len() implies b.push(u).contains(
        #[trigger] a.push(u)[i],
    ) by {
        if i < a.len() {
            let j = choose|j: int| 0 <= j < b.len() && b[j] == a[i];
            assert(b.push(u)[j] == a[i]);
        } else {
            assert(b.push(u)[b.len() as int] == u);
        }
    }
    assert forall|i: int| 0 <= i < a.len() implies b.push(u).contains(#[trigger] a[i]) by {
        assert(a.push(u)[i] == a[i]);
    }
}

proof fn lemma_prefix_contains(a: Seq<Seq<char>>, b: Seq<Seq<char>>, u: Seq<char>)
    requires
        a.is_prefix_of(b),
        a.contains(u),
    ensures
        b.contains(u),
{
    let j = choose|j: int| 0 <= j < a.len() && a[j] == u;
    assert(b[j] == a[j]);
}

/// Taking in a page's links records no URL twice and queues no URL twice:
/// the visited set and the frontier only grow at their ends, and what is
/// added to either was not visited before.
pub proof fn lemma_absorb_records_once(
    visited: Seq<Seq<char>>,
    frontier: Seq<Seq<char>>,
    links: Seq<Seq<char>>,
    scope: ScopeMode,
    seed: Seq<char>,
)
    requires
        visited.no_duplicates(),
        frontier.no_duplicates(),
        within(frontier, visited),
    ensures
        ({
            let (v, f) = absorb(visited, frontier, links, scope, seed);
            &&& v.no_duplicates()
            &&& f.no_duplicates()
            &&& visited.is_prefix_of(v)
            &&& frontier.is_prefix_of(f)
            &&& forall|k: int| visited.len() <= k < v.len() ==> !visited.contains(#[trigger] v[k])
            &&& forall|k: int|
                frontier.len() <= k < f.len() ==> !visited.contains(#[trigger] f[k])
        }),
    decreases links.len(),
{
    if links.len() > 0 {
        lemma_absorb_records_once(visited, frontier, links.drop_last(), scope, seed);
        lemma_absorb_frontier_within_visited(visited, frontier, links.drop_last(), scope, seed);
        let (v, f) = absorb(visited, frontier, links.drop_last(), scope, seed);
        let u = links.last();
        if !v.contains(u) {
            lemma_push_fresh(v, u);
            if f.contains(u) {
                let j = choose|j: int| 0 <= j < f.len() && f[j] == u;
                assert(v.contains(f[j]));
            }
            lemma_push_fresh(f, u);
            if visited.contains(u) {
                lemma_prefix_contains(visited, v, u);
            }
            assert(visited =~= v.push(u).subrange(0, visited.len() as int));
            assert(frontier =~= f.push(u).subrange(0, frontier.len() as int));
        }
    }
}

/// Taking in a page's links keeps every queued URL a visited one.
pub proof fn lemma_absorb_frontier_within_visited(
    visited: Seq<Seq<char>>,
    frontier: Seq<Seq<char>>,
    links: Seq<Seq<char>>,
    scope: ScopeMode,
    seed: Seq<char>,
)
    requires
        within(frontier, visited),
    ensures
        within(absorb(visited, frontier, links, scope, seed).1, absorb(visited, frontier, links, scope, seed).0),
        within(visited, absorb(visited, frontier, links, scope, seed).0),
    decreases links.len(),
{
    if links.len() > 0 {
        lemma_absorb_frontier_within_visited(visited, frontier, links.drop_last(), scope, seed);
        let (v, f) = absorb(visited, frontier, links.drop_last(), scope, seed);
        let u = links.last();
        lemma_within_push(f, v, u);
        lemma_within_push(visited, v, u);
    } else {
        assert forall|i: int| 0 <= i < visited.len() implies visited.contains(#[trigger] visited[i]) by {}
    }
}

/// Discovering again only URLs that are already visited changes neither
/// the visited set nor the frontier.
pub proof fn lemma_rediscovery_changes_nothing(
    visited: Seq<Seq<char>>,
    frontier: Seq<Seq<char>>,
    links: Seq<Seq<char>>,
    scope: ScopeMode,
    seed: Seq<char>,
)
    requires
        within(links, visited),
    ensures
        absorb(visited, frontier, links, scope, seed) == (visited, frontier),
    decreases links.len(),
{
    if links.len() > 0 {
        assert(within(links.drop_last(), visited)) by {
            assert forall|i: int| 0 <= i < links.drop_last().len() implies visited.contains(
                #[trigger] links.drop_last()[i],
            ) by {
                assert(links.drop_last()[i] == links[i]);
            }
        }
        lemma_rediscovery_changes_nothing(visited, frontier, links.drop_last(), scope, seed);
        assert(visited.contains(links[links.len() - 1]));
    }
}

/// Under the seed-prefix scope a newly discovered link is always recorded as
/// visited, and queued exactly when the seed URL is a prefix of it.
pub proof fn lemma_scope_filter(
    visited: Seq<Seq<char>>,
    frontier: Seq<Seq<char>>,
    u: Seq<char>,
    seed: Seq<char>,
)
    requires
        !visited.contains(u),
    ensures
        absorb(visited, frontier, seq![u], ScopeMode::SeedPrefix, seed) == if seed.is_prefix_of(u) {
            (visited.push(u), frontier.push(u))
        } else {
            (visited.push(u), frontier)
        },
{
    let links = seq![u];
    assert(links.drop_last() =~= Seq::<Seq<char>>::empty());
    assert(absorb(visited, frontier, links.drop_last(), ScopeMode::SeedPrefix, seed) == (
        visited,
        frontier,
    ));
    assert(links.last() == u);
}

/// A step of the crawl keeps its invariant: in every state reached, no URL
/// is recorded twice and every queued URL is a visited one.
pub proof fn lemma_step_keeps_invariant(cfg: CrawlConfig, v: CrawlView, event: EventView)
    requires
        crawl_wf(cfg, v),
    ensures
        crawl_wf(cfg, step_spec(cfg, v, event).0),
{
    let mid = match (v.phase, event) {
        (PhaseView::Expanding(u), EventView::Fetched(Some(body))) => {
            let links = links_of_page(cfg, u, body);
            lemma_absorb_records_once(v.visited, v.frontier, links, cfg.scope, cfg.seed_url@);
            lemma_absorb_frontier_within_visited(v.visited, v.frontier, links, cfg.scope, cfg.seed_url@);
            let (vis, fr) = absorb(v.visited, v.frontier, links, cfg.scope, cfg.seed_url@);
            lemma_prefix_contains(v.visited, vis, cfg.seed_url@);
            CrawlView { visited: vis, frontier: fr, phase: PhaseView::Idle, expanded: v.expanded.saturating_add(1) }
        },
        _ => CrawlView { phase: PhaseView::Idle, ..v },
    };
    lemma_advance_keeps_invariant(cfg, mid);
}

proof fn lemma_advance_keeps_invariant(cfg: CrawlConfig, v: CrawlView)
    requires
        crawl_wf(cfg, CrawlView { phase: PhaseView::Idle, ..v }),
    ensures
        crawl_wf(cfg, advance(v).0),
{
    if v.frontier.len() > 0 {
        let f = v.frontier;
        assert(v.visited.contains(f[f.len() - 1]));
        assert forall|i: int| 0 <= i < f.drop_last().len() implies v.visited.contains(
            #[trigger] f.drop_last()[i],
        ) by {
            assert(f.drop_last()[i] == f[i]);
        }
    }
}

/// Whether `prefix` is a prefix of `s`.
pub fn starts_with(s: &str, prefix: &str) -> (r: bool)
    ensures
        r == prefix@.is_prefix_of(s@),
{
    let n = prefix.unicode_len();
    if n > s.unicode_len() {
        return false;
    }
    let mut i: usize = 0;
    while i < n
        invariant
            n == prefix@.len(),
            n <= s@.len(),
            i <= n,
            forall|j: int| 0 <= j < i ==> prefix@[j] == s@[j],
        decreases n - i,
    {
        if prefix.get_char(i) != s.get_char(i) {
            return false;
        }
        i = i + 1;
    }
    assert(prefix@ =~= s@.subrange(0, n as int));
    true
}

/// A crawl in progress.
pub struct Crawler {
    config: CrawlConfig,
    visited: Vec<String>,
    frontier: Vec<String>,
    phase: Phase,
    expanded: usize,
}

impl View for Crawler {
    type V = CrawlView;

    closed spec fn view(&self) -> CrawlView {
        CrawlView {
            visited: texts(self.visited@),
            frontier: texts(self.frontier@),
            phase: self.phase@,
            expanded: self.expanded,
        }
    }
}

impl Crawler {
    /// The configuration the crawl runs under.
    pub closed spec fn cfg(&self) -> CrawlConfig {
        self.config
    }

    /// The crawl's invariant holds.
    pub open spec fn wf(&self) -> bool {
        crawl_wf(self.cfg(), self@)
    }

    /// Starts a crawl from `config.seed_url`, which is both visited and
    /// queued. Fails where the link selector for `config.exclusion_class`
    /// is not valid.
    pub fn new(config: CrawlConfig) -> (r: Result<Crawler, LinkError>)
        ensures
            r is Err <==> !selector_parses(link_selector(opt_text(config.exclusion_class))),
            r matches Ok(c) ==> c.wf() && c.cfg() == config && c@ == (CrawlView {
                visited: seq![config.seed_url@],
                frontier: seq![config.seed_url@],
                phase: PhaseView::Idle,
                expanded: 0,
            }),
    {
        if !link_selector_is_valid(&config.exclusion_class) {
            return Err(LinkError::InvalidSelector);
        }
        let mut visited: Vec<String> = Vec::new();
        visited.push(config.seed_url.clone());
        let mut frontier: Vec<String> = Vec::new();
        frontier.push(config.seed_url.clone());
        let c = Crawler { config, visited, frontier, phase: Phase::Idle, expanded: 0 };
        assert(c@.visited =~= seq![c.config.seed_url@]);
        assert(c@.frontier =~= seq![c.config.seed_url@]);
        assert(c@.visited[0] == c.config.seed_url@);
        Ok(c)
    }

    /// Every URL discovered so far, the seed first, in order of discovery.
    pub fn visited(&self) -> (r: &Vec<String>)
        ensures
            texts(r@) == self@.visited,
    {
        &self.visited
    }

    /// The URLs waiting for a visit; the last is taken next.
    pub fn frontier(&self) -> (r: &Vec<String>)
        ensures
            texts(r@) == self@.frontier,
    {
        &self.frontier
    }

    /// How many pages have had their links taken.
    pub fn expanded_count(&self) -> (r: usize)
        ensures
            r == self@.expanded,
    {
        self.expanded
    }

    /// The configuration the crawl runs under.
    pub fn config(&self) -> (r: &CrawlConfig)
        ensures
            *r == self.cfg(),
    {
        &self.config
    }

    /// Whether the frontier ran empty.
    pub fn is_finished(&self) -> (r: bool)
        ensures
            r == (self@.phase is Finished),
    {
        match self.phase {
            Phase::Finished => true,
            _ => false,
        }
    }

    fn may_expand_now(&self) -> (r: bool)
        ensures
            r == may_expand(self.config.expansion, self.expanded),
    {
        match self.config.expansion {
            ExpansionMode::SeedOnly => self.expanded == 0,
            ExpansionMode::EveryPage => true,
        }
    }

    fn take_next(&mut self) -> (r: Action)
        ensures
            (final(self)@, r@) == advance(old(self)@),
            final(self).config == old(self).config,
    {
        match self.frontier.pop() {
            Some(u) => {
                self.phase = Phase::Probing(u.clone());
                proof {
                    assert(texts(self.frontier@) =~= texts(old(self).frontier@).drop_last());
                }
                Action::Probe(u)
            },
            None => {
                self.phase = Phase::Finished;
                Action::Done
            },
        }
    }

    fn take_in(&mut self, links: &Vec<String>)
        ensures
            final(self).config == old(self).config,
            final(self).phase == old(self).phase,
            final(self).expanded == old(self).expanded,
            (final(self)@.visited, final(self)@.frontier) == absorb(
                old(self)@.visited,
                old(self)@.frontier,
                texts(links@),
                old(self).config.scope,
                old(self).config.seed_url@,
            ),
    {
        let ghost v0 = self@.visited;
        let ghost f0 = self@.frontier;
        let ghost ls = texts(links@);
        let mut i: usize = 0;
        while i < links.len()
            invariant
                i <= links.len(),
                ls == texts(links@),
                self.config == old(self).config,
                self.phase == old(self).phase,
                self.expanded == old(self).expanded,
                v0 == old(self)@.visited,
                f0 == old(self)@.frontier,
                (self@.visited, self@.frontier) == absorb(
                    v0,
                    f0,
                    ls.subrange(0, i as int),
                    self.config.scope,
                    self.config.seed_url@,
                ),
            decreases links.len() - i,
        {
            let link = &links[i];
            assert(ls.subrange(0, i + 1).drop_last() == ls.subrange(0, i as int));
            assert(ls.subrange(0, i + 1).last() == link@);
            if !contains_text(&self.visited, link) {
                let ghost vb = self.visited@;
                let ghost fb = self.frontier@;
                self.visited.push(link.clone());
                assert(texts(self.visited@) == texts(vb).push(link@));
                let queue = match self.config.scope {
                    ScopeMode::SeedPrefix => starts_with(link.as_str(), self.config.seed_url.as_str()),
                    ScopeMode::Everything => true,
                };
                if queue {
                    self.frontier.push(link.clone());
                    assert(texts(self.frontier@) == texts(fb).push(link@));
                }
            }
            i = i + 1;
        }
        assert(ls.subrange(0, links.len() as int) == ls);
    }

    /// Hands the crawl one event and returns what to do next, as
    /// `step_spec` describes.
    pub fn step(&mut self, event: Event) -> (r: Action)
        requires
            old(self).wf(),
        ensures
            final(self).wf(),
            final(self).cfg() == old(self).cfg(),
            (final(self)@, r@) == step_spec(old(self).cfg(), old(self)@, event@),
    {
        proof {
            lemma_step_keeps_invariant(self.config, self@, event@);
        }
        let mut phase = Phase::Idle;
        std::mem::swap(&mut self.phase, &mut phase);
        match phase {
            Phase::Idle => self.take_next(),
            Phase::Probing(u) => match event {
                Event::Probed(ok) => {
                    if ok && self.may_expand_now() {
                        self.phase = Phase::Expanding(u.clone());
                        Action::Fetch(u)
                    } else {
                        self.take_next()
                    }
                },
                _ => {
                    self.phase = Phase::Probing(u.clone());
                    Action::Probe(u)
                },
            },
            Phase::Expanding(u) => match event {
                Event::Fetched(None) => self.take_next(),
                Event::Fetched(Some(body)) => {
                    let links = match extract_links(
                        u.as_str(),
                        body.as_str(),
                        &self.config.exclusion_class,
                        self.config.fragment_policy,
                    ) {
                        Ok(links) => links,
                        Err(_) => Vec::new(),
                    };
                    self.take_in(&links);
                    self.expanded = self.expanded.saturating_add(1);
                    self.take_next()
                },
                _ => {
                    self.phase = Phase::Expanding(u.clone());
                    Action::Fetch(u)
                },
            },
            Phase::Finished => {
                self.phase = Phase::Finished;
                Action::Done
            },
        }
    }
}


} // verus!
