//! Guided watch creation: one text → its interpretation (category and constraints) →
//! confirmation with the stored deals that match while a background search brings more →
//! typed spec filters → a saved or updated watch.

use vstd::prelude::*;
use crate::category::{
    all_met, filters_match, kept_words, listable, shown_words_read_back, Category, CategorySpec,
    CategorySpecView, CategoryStatus, CategoryView, Interpretation, InterpretationView, SpecFilter,
    SpecFilterView, SpecKind,
};
use crate::deal::{Deal, DealView, Moderation};
use crate::search::{SearchJob, SearchJobView};
use crate::settings::{ChatTurn, ChatTurnView};
use crate::status::{SourceProgress, SourceProgressView};
use crate::text::{
    join, joined, lowercased, nat_text, push_text, same, split, split_on, trim, trim_or_none,
    trimmed, trimmed_or_none, u64_text,
};
use crate::ui::filters::{
    checked_for, meant, parse_euros, price_field, price_input, shown, typed_cents, untouched,
    FilterState, FilterStateView,
};
use crate::watch::{Watch, WatchRequest, WatchRequestView, WatchView};

verus! {

/// The state of the flow.
#[derive(Debug, PartialEq)]
pub struct Guided {
    /// What is typed as the search.
    pub text: String,
    /// Whether an interpretation is under way.
    pub busy: bool,
    pub error: Option<String>,
    pub interpretation: Option<Interpretation>,
    pub filters: FilterState,
    pub name: String,
    pub min_price: String,
    pub max_price: String,
    pub queries: String,
    /// The watch that is edited; none for a new one.
    pub editing: Option<u128>,
    pub job_id: Option<u128>,
    pub job: Option<SearchJob>,
    /// The conversation that refines the drafted category.
    pub chat: Vec<ChatTurn>,
}

/// What `Guided` holds.
#[verifier::ext_equal]
pub struct GuidedView {
    pub text: Seq<char>,
    pub busy: bool,
    pub error: Option<Seq<char>>,
    pub interpretation: Option<InterpretationView>,
    pub filters: FilterStateView,
    pub name: Seq<char>,
    pub min_price: Seq<char>,
    pub max_price: Seq<char>,
    pub queries: Seq<char>,
    pub editing: Option<u128>,
    pub job_id: Option<u128>,
    pub job: Option<SearchJobView>,
    pub chat: Seq<ChatTurnView>,
}

impl DeepView for Guided {
    type V = GuidedView;

    open spec fn deep_view(&self) -> GuidedView {
        GuidedView {
            text: self.text@,
            busy: self.busy,
            error: self.error.deep_view(),
            interpretation: self.interpretation.deep_view(),
            filters: self.filters.deep_view(),
            name: self.name@,
            min_price: self.min_price@,
            max_price: self.max_price@,
            queries: self.queries@,
            editing: self.editing,
            job_id: self.job_id,
            job: self.job.deep_view(),
            chat: self.chat.deep_view(),
        }
    }
}

/// The flow before anything was typed.
pub open spec fn fresh(busy: bool) -> GuidedView {
    GuidedView {
        text: Seq::empty(),
        busy,
        error: None,
        interpretation: None,
        filters: untouched(),
        name: Seq::empty(),
        min_price: Seq::empty(),
        max_price: Seq::empty(),
        queries: Seq::empty(),
        editing: None,
        job_id: None,
        job: None,
        chat: Seq::empty(),
    }
}

/// The flow with a watch loaded into it.
pub open spec fn with_watch(state: GuidedView, watch: WatchView) -> GuidedView {
    GuidedView {
        editing: Some(watch.id),
        name: watch.name,
        text: watch.name,
        min_price: price_field(watch.min_price_cents),
        max_price: price_field(watch.max_price_cents),
        queries: joined(watch.queries, ", "@),
        filters: shown(watch.spec_filters),
        ..state
    }
}

/// The first category with a slug.
pub open spec fn with_slug(categories: Seq<CategoryView>, slug: Option<Seq<char>>) -> Option<
    CategoryView,
>
    decreases categories.len(),
{
    if categories.len() == 0 {
        None
    } else if slug == Some(categories[0].slug) {
        Some(categories[0])
    } else {
        with_slug(categories.drop_first(), slug)
    }
}

/// The interpretation that stands for a watch under edit.
pub open spec fn edited(category: Option<CategoryView>) -> InterpretationView {
    InterpretationView {
        category,
        constraints: Seq::empty(),
        queries: Seq::empty(),
        proposal: None,
        via: "edit"@,
        llm_active: true,
        llm_error: None,
    }
}

/// The flow once an interpretation of `query` came back.
pub open spec fn answered(
    state: GuidedView,
    query: Seq<char>,
    out: Result<InterpretationView, Seq<char>>,
) -> GuidedView {
    match out {
        Ok(found) => GuidedView {
            name: if state.name.len() == 0 {
                query
            } else {
                state.name
            },
            queries: joined(found.queries, ", "@),
            filters: shown(found.constraints),
            interpretation: Some(found),
            busy: false,
            ..state
        },
        Err(e) => GuidedView { error: Some(e), busy: false, ..state },
    }
}

/// What an answer from the server holds.
pub open spec fn answer_view(out: Result<Interpretation, String>) -> Result<
    InterpretationView,
    Seq<char>,
> {
    match out {
        Ok(found) => Ok(found.deep_view()),
        Err(e) => Err(e@),
    }
}

/// The draft to approve, made active, and the interpretation that drafted it.
pub open spec fn approval(state: GuidedView) -> Option<(InterpretationView, CategoryView)> {
    match state.interpretation {
        Some(interp) => match interp.proposal {
            Some(draft) => Some(
                (
                    InterpretationView { proposal: None, ..interp },
                    CategoryView { status: CategoryStatus::Active, ..draft },
                ),
            ),
            None => None,
        },
        None => None,
    }
}

/// The queries that a comma-separated field lists, in lowercase.
pub open spec fn typed_queries(pieces: Seq<Seq<char>>) -> Seq<Seq<char>>
    decreases pieces.len(),
{
    if pieces.len() == 0 {
        Seq::empty()
    } else {
        let before = typed_queries(pieces.drop_last());
        let query = lowercased(trimmed(pieces.last()));
        if trimmed(pieces.last()).len() > 0 && query.len() > 0 {
            before.push(query)
        } else {
            before
        }
    }
}

/// The request that saving makes: the category of the interpretation, the filters of the
/// controls, and the name, for which the search stands in.
pub open spec fn request_of(state: GuidedView) -> WatchRequestView {
    WatchRequestView {
        name: if trimmed(state.name).len() == 0 {
            trimmed(state.text)
        } else {
            trimmed(state.name)
        },
        family: None,
        model: None,
        min_capacity_gb: None,
        min_price_cents: typed_cents(state.min_price),
        max_price_cents: typed_cents(state.max_price),
        category: match state.interpretation {
            Some(interp) => match interp.category {
                Some(c) => Some(c.slug),
                None => None,
            },
            None => None,
        },
        spec_filters: meant(state.filters),
        queries: typed_queries(split_on(state.queries, ',')),
        active: true,
    }
}

/// Whether a stored deal matches the draft: its category, the filters and the bounds. One
/// that the user has put aside does not.
pub open spec fn fits(
    deal: DealView,
    slug: Seq<char>,
    filters: Seq<SpecFilterView>,
    min: Option<i64>,
    max: Option<i64>,
) -> bool {
    &&& deal.moderation == Moderation::Unmoderated
    &&& deal.category == Some(slug)
    &&& all_met(filters, deal.specs)
    &&& min matches Some(m) ==> deal.price_cents >= m
    &&& max matches Some(m) ==> deal.price_cents <= m
}

/// The deals that match a draft, in order.
pub open spec fn fitting(
    deals: Seq<DealView>,
    slug: Seq<char>,
    filters: Seq<SpecFilterView>,
    min: Option<i64>,
    max: Option<i64>,
) -> Seq<DealView>
    decreases deals.len(),
{
    if deals.len() == 0 {
        Seq::empty()
    } else {
        let before = fitting(deals.drop_last(), slug, filters, min, max);
        if fits(deals.last(), slug, filters, min, max) {
            before.push(deals.last())
        } else {
            before
        }
    }
}

/// The stored deals that match what is drafted; none before there is a category.
pub open spec fn previewed(state: GuidedView, deals: Seq<DealView>) -> Seq<DealView> {
    match state.interpretation {
        Some(interp) => match interp.category {
            Some(c) => fitting(
                deals,
                c.slug,
                meant(state.filters),
                typed_cents(state.min_price),
                typed_cents(state.max_price),
            ),
            None => Seq::empty(),
        },
        None => Seq::empty(),
    }
}

fn read_queries(field: &str) -> (r: Vec<String>)
    ensures
        r.deep_view() == typed_queries(split_on(field@, ',')),
{
    let pieces = split(field, ',');
    let ghost all = pieces.deep_view();
    let mut out: Vec<String> = Vec::new();
    let mut i: usize = 0;
    assert(out.deep_view() =~= Seq::empty());
    while i < pieces.len()
        invariant
            i <= pieces@.len(),
            all == pieces.deep_view(),
            out.deep_view() == typed_queries(all.take(i as int)),
        decreases pieces@.len() - i,
    {
        assert(all.take(i + 1).drop_last() =~= all.take(i as int));
        assert(all.take(i + 1).last() == pieces@[i as int]@);
        let piece = trim(pieces[i].as_str());
        let query = piece.as_str().to_lowercase();
        if !piece.as_str().is_empty() && !query.as_str().is_empty() {
            push_text(&mut out, query.as_str());
        }
        i = i + 1;
    }
    assert(all.take(all.len() as int) =~= all);
    out
}

fn find_slug(categories: Vec<Category>, slug: &Option<String>) -> (r: Option<Category>)
    ensures
        r.deep_view() == with_slug(categories.deep_view(), slug.deep_view()),
{
    let ghost all = categories.deep_view();
    let mut i: usize = 0;
    assert(all.skip(0) =~= all);
    while i < categories.len()
        invariant
            i <= categories@.len(),
            all == categories.deep_view(),
            with_slug(all, slug.deep_view()) == with_slug(all.skip(i as int), slug.deep_view()),
        decreases categories@.len() - i,
    {
        assert(all.skip(i as int)[0] == categories@[i as int].deep_view());
        assert(all.skip(i as int).drop_first() =~= all.skip(i + 1));
        if let Some(wanted) = slug {
            if same(wanted.as_str(), categories[i].slug.as_str()) {
                return Some(categories[i].clone());
            }
        }
        i = i + 1;
    }
    None
}

impl Guided {
    /// The flow before anything was typed.
    pub fn new() -> (r: Guided)
        ensures
            r.deep_view() == fresh(false),
    {
        Guided::blank(false)
    }

    fn blank(busy: bool) -> (r: Guided)
        ensures
            r.deep_view() == fresh(busy),
    {
        let r = Guided {
            text: String::new(),
            busy,
            error: None,
            interpretation: None,
            filters: FilterState::default(),
            name: String::new(),
            min_price: String::new(),
            max_price: String::new(),
            queries: String::new(),
            editing: None,
            job_id: None,
            job: None,
            chat: Vec::new(),
        };
        assert(r.chat.deep_view() =~= Seq::empty());
        r
    }

    /// The flow started over.
    pub fn reset(self) -> (r: Guided)
        ensures
            r.deep_view() == fresh(self.deep_view().busy),
    {
        Guided::blank(self.busy)
    }

    /// The flow with an existing watch loaded into it; the categories are to be fetched.
    pub fn edit(self, watch: &Watch) -> (r: Guided)
        ensures
            r.deep_view() == with_watch(self.deep_view(), watch.deep_view()),
    {
        let mut g = self;
        g.editing = Some(watch.id);
        g.name = watch.name.clone();
        g.text = watch.name.clone();
        g.min_price = price_input(watch.min_price_cents);
        g.max_price = price_input(watch.max_price_cents);
        g.queries = join(&watch.queries, ", ");
        g.filters = FilterState::from_filters(&watch.spec_filters);
        g
    }

    /// The flow once the categories came for a watch under edit, whose category has
    /// `slug`.
    pub fn edit_loaded(self, slug: &Option<String>, categories: Vec<Category>) -> (r: Guided)
        ensures
            r.deep_view() == (GuidedView {
                interpretation: Some(
                    edited(with_slug(categories.deep_view(), slug.deep_view())),
                ),
                ..self.deep_view()
            }),
    {
        let mut g = self;
        let interp = Interpretation {
            category: find_slug(categories, slug),
            constraints: Vec::new(),
            queries: Vec::new(),
            proposal: None,
            via: "edit".to_owned(),
            llm_active: true,
            llm_error: None,
        };
        assert(interp.constraints.deep_view() =~= Seq::empty());
        assert(interp.queries.deep_view() =~= Seq::empty());
        g.interpretation = Some(interp);
        g
    }

    /// The flow once a search is submitted, with the text to interpret; nothing happens
    /// where none is typed.
    pub fn submit(self) -> (r: (Guided, Option<String>))
        ensures
            ({
                let query = trimmed(self.deep_view().text);
                if query.len() == 0 {
                    r.0.deep_view() == self.deep_view() && r.1 is None
                } else {
                    &&& r.0.deep_view() == (GuidedView {
                        busy: true,
                        error: None,
                        chat: Seq::empty(),
                        ..self.deep_view()
                    })
                    &&& r.1.deep_view() == Some(query)
                }
            }),
    {
        let query = trim(self.text.as_str());
        if query.as_str().is_empty() {
            return (self, None);
        }
        let mut g = self;
        g.busy = true;
        g.error = None;
        g.chat = Vec::new();
        assert(g.chat.deep_view() =~= Seq::empty());
        (g, Some(query))
    }

    /// The flow once an interpretation of `query` came back.
    pub fn interpreted(self, query: &str, out: Result<Interpretation, String>) -> (r: Guided)
        ensures
            r.deep_view() == answered(self.deep_view(), query@, answer_view(out)),
    {
        let mut g = self;
        g.busy = false;
        match out {
            Ok(found) => {
                if g.name.as_str().is_empty() {
                    g.name = query.to_owned();
                }
                g.queries = join(&found.queries, ", ");
                g.filters = FilterState::from_filters(&found.constraints);
                g.interpretation = Some(found);
            },
            Err(e) => {
                g.error = Some(e);
            },
        }
        g
    }

    /// The flow once the background search for an interpretation started.
    pub fn search_started(self, id: u128) -> (r: Guided)
        ensures
            r.deep_view() == (GuidedView { job_id: Some(id), job: None, ..self.deep_view() }),
    {
        let mut g = self;
        g.job_id = Some(id);
        g.job = None;
        g
    }

    /// The search to ask about: the one that started last, unless it is known to be done.
    pub fn to_poll(&self) -> (r: Option<u128>)
        ensures
            r == match self.deep_view().job {
                Some(job) => if job.done {
                    None
                } else {
                    self.deep_view().job_id
                },
                None => self.deep_view().job_id,
            },
    {
        match &self.job {
            Some(job) => {
                if job.done {
                    None
                } else {
                    self.job_id
                }
            },
            None => self.job_id,
        }
    }

    /// The flow once the progress of the search came.
    pub fn progressed(self, job: SearchJob) -> (r: Guided)
        ensures
            r.deep_view() == (GuidedView { job: Some(job.deep_view()), ..self.deep_view() }),
    {
        let mut g = self;
        g.job = Some(job);
        g
    }

    /// The draft to approve, made active, and the interpretation that drafted it, without
    /// it; none where nothing is drafted.
    pub fn approve(&self) -> (r: Option<(Interpretation, Category)>)
        ensures
            r.deep_view() == approval(self.deep_view()),
    {
        match &self.interpretation {
            Some(interp) => match &interp.proposal {
                Some(draft) => {
                    let mut held = interp.clone();
                    held.proposal = None;
                    let mut c = draft.clone();
                    c.status = CategoryStatus::Active;
                    Some((held, c))
                },
                None => None,
            },
            None => None,
        }
    }

    /// The flow once the approved category was stored, and the search for it started where
    /// it did: the interpretation that was approved stands again, whatever came of the flow
    /// meanwhile.
    pub fn approved(
        self,
        held: Interpretation,
        result: Result<Category, String>,
        search: Option<u128>,
    ) -> (r: Guided)
        ensures
            r.deep_view() == match result {
                Ok(category) => GuidedView {
                    job_id: match search {
                        Some(id) => Some(id),
                        None => self.deep_view().job_id,
                    },
                    interpretation: Some(
                        InterpretationView {
                            category: Some(category.deep_view()),
                            proposal: None,
                            ..held.deep_view()
                        },
                    ),
                    ..self.deep_view()
                },
                Err(e) => GuidedView { error: Some(e@), ..self.deep_view() },
            },
    {
        let mut g = self;
        match result {
            Ok(category) => {
                let mut i = held;
                i.category = Some(category);
                i.proposal = None;
                g.interpretation = Some(i);
                if let Some(id) = search {
                    g.job_id = Some(id);
                }
            },
            Err(e) => {
                g.error = Some(e);
            },
        }
        g
    }

    /// The flow once the drafted category was reworked: the conversation goes on, and the
    /// rework, which `json` writes, is the new draft.
    pub fn revised(self, instruction: &str, category: Category, json: &str) -> (r: Guided)
        ensures
            r.deep_view() == (GuidedView {
                chat: talked(self.deep_view().chat, instruction@, json@),
                interpretation: match self.deep_view().interpretation {
                    Some(interp) => Some(
                        InterpretationView { proposal: Some(category.deep_view()), ..interp },
                    ),
                    None => None,
                },
                ..self.deep_view()
            }),
    {
        let mut g = self;
        g.chat = talk(g.chat, instruction, json);
        g.interpretation = match g.interpretation {
            Some(interp) => {
                let mut i = interp;
                i.proposal = Some(category);
                Some(i)
            },
            None => None,
        };
        g
    }

    /// The request that saving makes.
    fn request(&self) -> (r: WatchRequest)
        ensures
            r.deep_view() == request_of(self.deep_view()),
    {
        let name = trim(self.name.as_str());
        let name = if name.as_str().is_empty() {
            trim(self.text.as_str())
        } else {
            name
        };
        let category = match &self.interpretation {
            Some(interp) => match &interp.category {
                Some(c) => Some(c.slug.clone()),
                None => None,
            },
            None => None,
        };
        WatchRequest {
            name,
            family: None,
            model: None,
            min_capacity_gb: None,
            min_price_cents: parse_euros(self.min_price.as_str()),
            max_price_cents: parse_euros(self.max_price.as_str()),
            category,
            spec_filters: self.filters.to_filters(),
            queries: read_queries(self.queries.as_str()),
            active: true,
        }
    }

    /// The flow once saving was asked for, with the request to send and the watch that it
    /// replaces; a watch needs a name.
    pub fn save(self) -> (r: (Guided, Option<(Option<u128>, WatchRequest)>))
        ensures
            ({
                let request = request_of(self.deep_view());
                if request.name.len() == 0 {
                    &&& r.0.deep_view() == (GuidedView {
                        error: Some("the watch needs a name"@),
                        ..self.deep_view()
                    })
                    &&& r.1 is None
                } else {
                    &&& r.0.deep_view() == self.deep_view()
                    &&& r.1 matches Some(sent) && sent.0 == self.deep_view().editing
                        && sent.1.deep_view() == request
                }
            }),
    {
        let request = self.request();
        if request.name.as_str().is_empty() {
            let mut g = self;
            g.error = Some("the watch needs a name".to_owned());
            return (g, None);
        }
        let editing = self.editing;
        (self, Some((editing, request)))
    }

    /// The flow once the watch was saved, or was not.
    pub fn saved(self, result: Result<(), String>) -> (r: Guided)
        ensures
            r.deep_view() == match result {
                Ok(_) => fresh(self.deep_view().busy),
                Err(e) => GuidedView { error: Some(e@), ..self.deep_view() },
            },
    {
        match result {
            Ok(_) => self.reset(),
            Err(e) => {
                let mut g = self;
                g.error = Some(e);
                g
            },
        }
    }

    /// The stored deals that match what is drafted.
    pub fn preview(&self, deals: &Vec<Deal>) -> (r: Vec<Deal>)
        ensures
            r.deep_view() == previewed(self.deep_view(), deals.deep_view()),
    {
        let nothing: Vec<Deal> = Vec::new();
        assert(nothing.deep_view() =~= Seq::empty());
        match &self.interpretation {
            Some(interp) => match &interp.category {
                Some(c) => fitting_deals(
                    deals,
                    c.slug.as_str(),
                    &self.filters.to_filters(),
                    parse_euros(self.min_price.as_str()),
                    parse_euros(self.max_price.as_str()),
                ),
                None => nothing,
            },
            None => nothing,
        }
    }
}

/// Whether the background search is worth starting for an interpretation.
pub fn worth_searching(out: &Interpretation) -> (r: bool)
    ensures
        r == (out.deep_view().category is Some || out.deep_view().proposal is Some),
{
    out.category.is_some() || out.proposal.is_some()
}

/// The deals that match a draft.
pub fn fitting_deals(
    deals: &Vec<Deal>,
    slug: &str,
    filters: &Vec<SpecFilter>,
    min: Option<i64>,
    max: Option<i64>,
) -> (r: Vec<Deal>)
    ensures
        r.deep_view() == fitting(deals.deep_view(), slug@, filters.deep_view(), min, max),
{
    let ghost all = deals.deep_view();
    let ghost asked = filters.deep_view();
    let mut out: Vec<Deal> = Vec::new();
    let mut i: usize = 0;
    assert(out.deep_view() =~= Seq::empty());
    while i < deals.len()
        invariant
            i <= deals@.len(),
            all == deals.deep_view(),
            asked == filters.deep_view(),
            out.deep_view() == fitting(all.take(i as int), slug@, asked, min, max),
        decreases deals@.len() - i,
    {
        let ghost before = out.deep_view();
        assert(all.take(i + 1).drop_last() =~= all.take(i as int));
        assert(all.take(i + 1).last() == deals@[i as int].deep_view());
        let deal = &deals[i];
        let in_category = match &deal.category {
            Some(c) => same(c.as_str(), slug),
            None => false,
        };
        let above = match min {
            Some(m) => deal.price_cents >= m,
            None => true,
        };
        let below = match max {
            Some(m) => deal.price_cents <= m,
            None => true,
        };
        if deal.moderation == Moderation::Unmoderated && in_category && filters_match(
            filters.as_slice(),
            &deal.specs,
        ) && above && below {
            let copy = deal.clone();
            out.push(copy);
            assert(out.deep_view() =~= before.push(copy.deep_view()));
        }
        i = i + 1;
    }
    assert(all.take(all.len() as int) =~= all);
    out
}

/// A conversation with one exchange more.
pub open spec fn talked(
    chat: Seq<ChatTurnView>,
    asked: Seq<char>,
    answer: Seq<char>,
) -> Seq<ChatTurnView> {
    chat.push(ChatTurnView { role: "user"@, content: asked }).push(
        ChatTurnView { role: "assistant"@, content: answer },
    )
}

/// A conversation with one exchange more.
pub fn talk(chat: Vec<ChatTurn>, asked: &str, answer: &str) -> (r: Vec<ChatTurn>)
    ensures
        r.deep_view() == talked(chat.deep_view(), asked@, answer@),
{
    let ghost before = chat.deep_view();
    let mut out = chat;
    out.push(ChatTurn { role: "user".to_owned(), content: asked.to_owned() });
    out.push(ChatTurn { role: "assistant".to_owned(), content: answer.to_owned() });
    assert(out.deep_view() =~= talked(before, asked@, answer@));
    out
}

/// What the user said in a conversation, in order.
pub open spec fn user_turns(chat: Seq<ChatTurnView>) -> Seq<Seq<char>>
    decreases chat.len(),
{
    if chat.len() == 0 {
        Seq::empty()
    } else {
        let before = user_turns(chat.drop_last());
        if chat.last().role == "user"@ {
            before.push(chat.last().content)
        } else {
            before
        }
    }
}

/// The line that sums a conversation up; none where the user has said nothing.
pub open spec fn conversation_line(chat: Seq<ChatTurnView>) -> Option<Seq<char>> {
    if user_turns(chat).len() == 0 {
        None
    } else {
        Some("conversation so far: "@ + joined(user_turns(chat), " · "@))
    }
}

/// The line that sums a conversation up; none where the user has said nothing.
pub fn conversation_so_far(chat: &Vec<ChatTurn>) -> (r: Option<String>)
    ensures
        r.deep_view() == conversation_line(chat.deep_view()),
{
    let ghost all = chat.deep_view();
    let mut asked: Vec<String> = Vec::new();
    let mut i: usize = 0;
    assert(asked.deep_view() =~= Seq::empty());
    while i < chat.len()
        invariant
            i <= chat@.len(),
            all == chat.deep_view(),
            asked.deep_view() == user_turns(all.take(i as int)),
        decreases chat@.len() - i,
    {
        assert(all.take(i + 1).drop_last() =~= all.take(i as int));
        assert(all.take(i + 1).last() == chat@[i as int].deep_view());
        if same(chat[i].role.as_str(), "user") {
            push_text(&mut asked, chat[i].content.as_str());
        }
        i = i + 1;
    }
    assert(all.take(all.len() as int) =~= all);
    if asked.len() == 0 {
        return None;
    }
    let mut line = "conversation so far: ".to_owned();
    line.append(join(&asked, " · ").as_str());
    Some(line)
}

/// An exchange adds what was asked to what the user said.
pub proof fn talking_adds_one_turn(chat: Seq<ChatTurnView>, asked: Seq<char>, answer: Seq<char>)
    ensures
        user_turns(talked(chat, asked, answer)) == user_turns(chat).push(asked),
{
    let once = chat.push(ChatTurnView { role: "user"@, content: asked });
    let twice = talked(chat, asked, answer);
    reveal_strlit("user");
    reveal_strlit("assistant");
    assert("user"@[0] != "assistant"@[0]);
    assert(twice.drop_last() =~= once);
    assert(user_turns(twice) == user_turns(once));
    assert(once.drop_last() =~= chat);
}

/// What an instruction to the LLM asks, once trimmed; none where it is blank.
pub fn instruction(input: &str) -> (r: Option<String>)
    ensures
        r.deep_view() == trimmed_or_none(input@),
{
    trim_or_none(input)
}

/// What the flow says of an interpretation.
#[derive(Debug, PartialEq)]
pub enum Confirmation {
    /// A known category: its label, and how it was found.
    Understood { label: String, via: String },
    /// Unknown, with a draft to review.
    Drafted,
    /// Unknown, and there is no LLM to ask.
    NoLlm,
    /// Unknown.
    Unknown,
}

/// What `Confirmation` holds.
#[verifier::ext_equal]
pub enum ConfirmationView {
    Understood { label: Seq<char>, via: Seq<char> },
    Drafted,
    NoLlm,
    Unknown,
}

impl DeepView for Confirmation {
    type V = ConfirmationView;

    open spec fn deep_view(&self) -> ConfirmationView {
        match self {
            Confirmation::Understood { label, via } => ConfirmationView::Understood {
                label: label@,
                via: via@,
            },
            Confirmation::Drafted => ConfirmationView::Drafted,
            Confirmation::NoLlm => ConfirmationView::NoLlm,
            Confirmation::Unknown => ConfirmationView::Unknown,
        }
    }
}

/// What the flow says of an interpretation.
pub open spec fn confirmed(interp: InterpretationView) -> ConfirmationView {
    match interp.category {
        Some(c) => ConfirmationView::Understood {
            label: c.label,
            via: "(via "@ + interp.via + ")"@,
        },
        None => if interp.proposal is Some {
            ConfirmationView::Drafted
        } else if !interp.llm_active {
            ConfirmationView::NoLlm
        } else {
            ConfirmationView::Unknown
        },
    }
}

/// What the flow says of an interpretation.
pub fn confirmation_header(interp: &Interpretation) -> (r: Confirmation)
    ensures
        r.deep_view() == confirmed(interp.deep_view()),
{
    match &interp.category {
        Some(c) => {
            let mut via = "(via ".to_owned();
            via.append(interp.via.as_str());
            via.append(")");
            Confirmation::Understood { label: c.label.clone(), via }
        },
        None => {
            if interp.proposal.is_some() {
                Confirmation::Drafted
            } else if !interp.llm_active {
                Confirmation::NoLlm
            } else {
                Confirmation::Unknown
            }
        },
    }
}

/// The title of the control of a spec.
pub open spec fn control_title(spec: CategorySpecView) -> Seq<char> {
    match spec.kind {
        SpecKind::Number => match spec.unit {
            Some(unit) => if unit.len() == 0 {
                spec.label
            } else {
                spec.label + " ("@ + unit + ")"@
            },
            None => spec.label,
        },
        SpecKind::Enum => spec.label + ":"@,
        SpecKind::Boolean => spec.label,
    }
}

/// The title of the control of a spec.
pub fn spec_title(spec: &CategorySpec) -> (r: String)
    ensures
        r@ == control_title(spec.deep_view()),
{
    let mut title = spec.label.clone();
    match spec.kind {
        SpecKind::Number => {
            if let Some(unit) = &spec.unit {
                if !unit.as_str().is_empty() {
                    title.append(" (");
                    title.append(unit.as_str());
                    title.append(")");
                }
            }
        },
        SpecKind::Enum => {
            title.append(":");
        },
        SpecKind::Boolean => {},
    }
    title
}

/// The progress of a source.
pub open spec fn progress_text(source: Seq<char>, progress: SourceProgressView) -> Seq<char> {
    match progress {
        SourceProgressView::Pending => source + ": searching…"@,
        SourceProgressView::Done { listings } => source + ": "@ + nat_text(listings as nat)
            + " found"@,
        SourceProgressView::Error { .. } => source + ": failed"@,
    }
}

/// The progress of a search.
pub open spec fn progress_line(job: SearchJobView) -> Seq<char> {
    (if job.done {
        "Live search done — "@
    } else {
        "Live search running — "@
    }) + joined(
        Seq::new(job.sources.len(), |i: int| progress_text(job.sources[i].0, job.sources[i].1)),
        " · "@,
    )
}

fn source_progress(source: &str, progress: &SourceProgress) -> (r: String)
    ensures
        r@ == progress_text(source@, progress.deep_view()),
{
    let mut line = source.to_owned();
    match progress {
        SourceProgress::Pending => {
            line.append(": searching…");
        },
        SourceProgress::Done { listings } => {
            line.append(": ");
            line.append(u64_text(*listings).as_str());
            line.append(" found");
        },
        SourceProgress::Error { .. } => {
            line.append(": failed");
        },
    }
    line
}

/// The progress of a search.
pub fn search_progress_line(job: &SearchJob) -> (r: String)
    ensures
        r@ == progress_line(job.deep_view()),
{
    let ghost sources = job.sources.deep_view();
    let ghost all = Seq::new(
        sources.len(),
        |i: int| progress_text(sources[i].0, sources[i].1),
    );
    let mut items: Vec<String> = Vec::new();
    let mut i: usize = 0;
    assert(items.deep_view() =~= all.take(0));
    while i < job.sources.len()
        invariant
            i <= job.sources@.len(),
            sources == job.sources.deep_view(),
            all == Seq::new(
                sources.len(),
                |i: int| progress_text(sources[i].0, sources[i].1),
            ),
            items.deep_view() == all.take(i as int),
        decreases job.sources@.len() - i,
    {
        assert(sources[i as int] == job.sources@[i as int].deep_view());
        let item = source_progress(job.sources[i].0.as_str(), &job.sources[i].1);
        push_text(&mut items, item.as_str());
        i = i + 1;
        assert(items.deep_view() =~= all.take(i as int));
    }
    assert(all.take(all.len() as int) =~= all);
    let mut line = if job.done {
        "Live search done — ".to_owned()
    } else {
        "Live search running — ".to_owned()
    };
    line.append(join(&items, " · ").as_str());
    line
}

/// How many deals match, as the preview says it.
pub open spec fn count_line(count: nat) -> Seq<char> {
    nat_text(count) + " matching deal"@ + (if count == 1 {
        ""@
    } else {
        "s"@
    }) + " right now"@
}

/// How many deals match, as the preview says it.
pub fn preview_count(count: usize) -> (r: String)
    ensures
        r@ == count_line(count as nat),
{
    let mut line = u64_text(count as u64);
    line.append(" matching deal");
    if count == 1 {
        line.append("");
    } else {
        line.append("s");
    }
    line.append(" right now");
    line
}

impl FilterState {
    /// What is typed as the floor of a spec.
    pub fn floor(&self, key: &str) -> (r: &str)
        ensures
            r@ == match crate::table::lookup(self.deep_view().num_min, key@) {
                Some(input) => input,
                None => ""@,
            },
    {
        match crate::table::find(&self.num_min, key) {
            Some(input) => input.as_str(),
            None => "",
        }
    }

    /// What is typed as the ceiling of a spec.
    pub fn ceiling(&self, key: &str) -> (r: &str)
        ensures
            r@ == match crate::table::lookup(self.deep_view().num_max, key@) {
                Some(input) => input,
                None => ""@,
            },
    {
        match crate::table::find(&self.num_max, key) {
            Some(input) => input.as_str(),
            None => "",
        }
    }

    /// Whether a value of a spec is checked.
    pub fn is_checked(&self, key: &str, value: &str) -> (r: bool)
        ensures
            r == checked_for(self.deep_view(), key@).contains(value@),
    {
        match crate::table::find(&self.enums, key) {
            Some(values) => crate::pipeline::holds_text(values, value),
            None => false,
        }
    }

    /// Whether the switch of a spec is on.
    pub fn is_on(&self, key: &str) -> (r: bool)
        ensures
            r == (crate::table::lookup(self.deep_view().bools, key@) == Some(true)),
    {
        match crate::table::find(&self.bools, key) {
            Some(on) => *on,
            None => false,
        }
    }
}

/// Every previewed deal is in the drafted category, meets the filters and the bounds, and
/// is stored; and every stored deal that does is previewed.
pub proof fn preview_is_exact(
    deals: Seq<DealView>,
    slug: Seq<char>,
    filters: Seq<SpecFilterView>,
    min: Option<i64>,
    max: Option<i64>,
    deal: DealView,
)
    ensures
        fitting(deals, slug, filters, min, max).contains(deal) <==> deals.contains(deal) && fits(
            deal,
            slug,
            filters,
            min,
            max,
        ),
    decreases deals.len(),
{
    let after = fitting(deals, slug, filters, min, max);
    if deals.len() > 0 {
        let rest = deals.drop_last();
        preview_is_exact(rest, slug, filters, min, max, deal);
        let before = fitting(rest, slug, filters, min, max);
        let n = deals.len() - 1;
        assert(deals[n] == deals.last());
        if rest.contains(deal) {
            let i = choose|i: int| 0 <= i < rest.len() && rest[i] == deal;
            assert(deals[i] == deal);
        }
        if deals.contains(deal) && deal != deals.last() {
            let i = choose|i: int| 0 <= i < deals.len() && deals[i] == deal;
            assert(rest[i] == deal);
        }
        if before.contains(deal) {
            let i = choose|i: int| 0 <= i < before.len() && before[i] == deal;
            assert(after[i] == deal);
        }
        if fits(deals.last(), slug, filters, min, max) {
            assert(after[before.len() as int] == deals.last());
        }
        if after.contains(deal) && deal != deals.last() {
            let i = choose|i: int| 0 <= i < after.len() && after[i] == deal;
            assert(before[i] == deal);
        }
    } else {
        assert(!after.contains(deal));
        assert(!deals.contains(deal));
    }
}

// ---- editing a watch ----

/// A query as it is stored: trimmed, in lowercase, not empty and without commas.
pub open spec fn plain_query(q: Seq<char>) -> bool {
    &&& q.len() > 0
    &&& trimmed(q) == q
    &&& lowercased(q) == q
    &&& !q.contains(',')
}

/// Queries as they are stored.
pub open spec fn all_plain(queries: Seq<Seq<char>>) -> bool {
    forall|i: int| 0 <= i < queries.len() ==> plain_query(#[trigger] queries[i])
}

/// A comma-separated field that shows queries reads back as the same queries.
pub proof fn shown_queries_read_back(queries: Seq<Seq<char>>)
    ensures
        all_plain(queries) ==> typed_queries(split_on(joined(queries, ", "@), ',')) == queries,
{
    if all_plain(queries) {
        assert forall|i: int| 0 <= i < queries.len() implies listable(#[trigger] queries[i]) by {
            assert(plain_query(queries[i]));
        }
        shown_words_read_back(queries);
        lowercase_words_are_queries(split_on(joined(queries, ", "@), ','));
    }
}

/// Words that are in lowercase already are read as queries as they are.
proof fn lowercase_words_are_queries(pieces: Seq<Seq<char>>)
    ensures
        (forall|i: int|
            0 <= i < kept_words(pieces).len() ==> lowercased(#[trigger] kept_words(pieces)[i])
                == kept_words(pieces)[i]) ==> typed_queries(pieces) == kept_words(pieces),
    decreases pieces.len(),
{
    if pieces.len() > 0 {
        let rest = pieces.drop_last();
        lowercase_words_are_queries(rest);
        let before = kept_words(rest);
        let all = kept_words(pieces);
        if forall|i: int| 0 <= i < all.len() ==> lowercased(#[trigger] all[i]) == all[i] {
            assert forall|i: int| 0 <= i < before.len() implies lowercased(#[trigger] before[i])
                == before[i] by {
                assert(all[i] == before[i]);
            }
            if trimmed(pieces.last()).len() > 0 {
                assert(all[before.len() as int] == trimmed(pieces.last()));
            }
        }
    }
}

/// Loading a watch and saving it as it is replaces it by itself: under its id, with its
/// name, its bounds, its filters and, where they are as they are stored, its queries.
pub proof fn editing_keeps_the_watch(
    state: GuidedView,
    watch: WatchView,
    interpretation: Option<InterpretationView>,
)
    requires
        trimmed(watch.name) == watch.name,
        watch.name.len() > 0,
        crate::ui::filters::controls_suffice(watch.spec_filters),
    ensures
        ({
            let loaded = GuidedView { interpretation, ..with_watch(state, watch) };
            let request = request_of(loaded);
            &&& loaded.editing == Some(watch.id)
            &&& request.name == watch.name
            &&& request.min_price_cents == watch.min_price_cents
            &&& request.max_price_cents == watch.max_price_cents
            &&& all_plain(watch.queries) ==> request.queries == watch.queries
            &&& request.spec_filters.to_multiset() == watch.spec_filters.to_multiset()
        }),
{
    crate::ui::filters::shown_filters_read_back(watch.spec_filters);
    shown_queries_read_back(watch.queries);
    if let Some(c) = watch.min_price_cents {
        crate::ui::filters::shown_price_reads_back(c);
    }
    if let Some(c) = watch.max_price_cents {
        crate::ui::filters::shown_price_reads_back(c);
    }
    assert(trimmed(Seq::<char>::empty()) =~= Seq::empty());
}

/// The flow starts with nothing typed, nothing found and nothing under edit.
pub proof fn the_flow_starts_empty(busy: bool)
    ensures
        ({
            let g = fresh(busy);
            &&& g.busy == busy
            &&& g.text.len() == 0 && g.name.len() == 0 && g.queries.len() == 0
            &&& g.min_price.len() == 0 && g.max_price.len() == 0
            &&& g.error is None && g.interpretation is None && g.editing is None
            &&& g.job_id is None && g.job is None && g.chat.len() == 0
            &&& g.filters == untouched()
        }),
{
}

/// A watch under edit fills the form: its name, its prices, its queries and its filters.
pub proof fn a_watch_fills_the_form(state: GuidedView, watch: WatchView)
    ensures
        ({
            let g = with_watch(state, watch);
            &&& g.editing == Some(watch.id)
            &&& g.name == watch.name
            &&& g.text == watch.name
            &&& g.min_price == price_field(watch.min_price_cents)
            &&& g.max_price == price_field(watch.max_price_cents)
            &&& g.queries == joined(watch.queries, ", "@)
            &&& g.filters == shown(watch.spec_filters)
            &&& g.busy == state.busy && g.error == state.error && g.interpretation
                == state.interpretation && g.job_id == state.job_id && g.job == state.job && g.chat
                == state.chat
        }),
{
}

/// The category of a slug is the first that has it.
pub proof fn the_first_with_the_slug(categories: Seq<CategoryView>, slug: Seq<char>)
    ensures
        with_slug(categories, None) is None,
        match with_slug(categories, Some(slug)) {
            Some(c) => exists|i: int|
                0 <= i < categories.len() && #[trigger] categories[i] == c && c.slug == slug
                    && forall|j: int| 0 <= j < i ==> (#[trigger] categories[j]).slug != slug,
            None => forall|j: int| 0 <= j < categories.len() ==> (#[trigger] categories[j]).slug
                != slug,
        },
    decreases categories.len(),
{
    if categories.len() > 0 {
        let rest = categories.drop_first();
        the_first_with_the_slug(rest, slug);
        if categories[0].slug == slug {
            assert(categories[0] == with_slug(categories, Some(slug))->0);
        } else {
            match with_slug(rest, Some(slug)) {
                Some(c) => {
                    let i = choose|i: int|
                        0 <= i < rest.len() && #[trigger] rest[i] == c && c.slug == slug && forall|
                            j: int,
                        |
                            0 <= j < i ==> (#[trigger] rest[j]).slug != slug;
                    assert(categories[i + 1] == c);
                    assert forall|j: int| 0 <= j < i + 1 implies (#[trigger] categories[j]).slug
                        != slug by {
                        if j > 0 {
                            assert(rest[j - 1] == categories[j]);
                        }
                    }
                },
                None => {
                    assert forall|j: int| 0 <= j < categories.len() implies (
                    #[trigger] categories[j]).slug != slug by {
                        if j > 0 {
                            assert(rest[j - 1] == categories[j]);
                        }
                    }
                },
            }
        }
    }
}

/// An answer ends the wait; a found one fills the form, and names the watch where it has
/// no name yet; a failure only says what went wrong.
pub proof fn answers_fill_the_form(
    state: GuidedView,
    query: Seq<char>,
    found: InterpretationView,
    message: Seq<char>,
)
    ensures
        ({
            let g = answered(state, query, Ok(found));
            &&& !g.busy
            &&& g.interpretation == Some(found)
            &&& g.filters == shown(found.constraints)
            &&& g.queries == joined(found.queries, ", "@)
            &&& state.name.len() == 0 ==> g.name == query
            &&& state.name.len() > 0 ==> g.name == state.name
            &&& g.text == state.text && g.error == state.error && g.editing == state.editing
            &&& g.min_price == state.min_price && g.max_price == state.max_price
        }),
        answered(state, query, Err(message)) == (GuidedView {
            error: Some(message),
            busy: false,
            ..state
        }),
{
}

/// A draft is approved as it is, but active; the interpretation keeps the rest.
pub proof fn approving_makes_the_draft_active(state: GuidedView)
    ensures
        approval(state) is Some <==> state.interpretation is Some && (
        state.interpretation->0).proposal is Some,
        approval(state) matches Some(pair) ==> {
            let interp = state.interpretation->0;
            let draft = interp.proposal->0;
            &&& pair.0 == (InterpretationView { proposal: None, ..interp })
            &&& pair.1 == (CategoryView {
                slug: draft.slug,
                label: draft.label,
                aliases: draft.aliases,
                origin: draft.origin,
                status: CategoryStatus::Active,
                specs: draft.specs,
                created_at: draft.created_at,
            })
        },
{
}

/// The queries are the pieces of the field without the white space around them, in lowercase,
/// but for those of which nothing is left.
pub proof fn every_typed_query_is_kept(
    pieces: Seq<Seq<char>>,
)
    ensures
        typed_queries(pieces).map_values(|l: Seq<char>| Some(l)) == pieces.map_values(
            |x: Seq<char>|
                (if trimmed(x).len() > 0 && lowercased(trimmed(x)).len() > 0 {
                    Some(lowercased(trimmed(x)))
                } else {
                    None
                }),
        ).filter(|l: Option<Seq<char>>| l is Some),
    decreases pieces.len(),
{
    reveal(Seq::filter);
    let f = |x: Seq<char>|
        (if trimmed(x).len() > 0 && lowercased(trimmed(x)).len() > 0 {
            Some(lowercased(trimmed(x)))
        } else {
            None
        });
    let p = |l: Option<Seq<char>>| l is Some;
    let g = |l: Seq<char>| Some(l);
    if pieces.len() > 0 {
        let rest = pieces.drop_last();
        every_typed_query_is_kept(rest);
        assert(pieces.map_values(f).drop_last() =~= rest.map_values(f));
        assert(pieces.map_values(f).last() == f(pieces.last()));
        if let Some(l) = f(pieces.last()) {
            let before = typed_queries(rest);
            assert(before.push(l).map_values(g) =~= before.map_values(g).push(Some(l)));
        }
    }
    assert(typed_queries(pieces).map_values(g) =~= pieces.map_values(f).filter(p));
}

/// What saving asks for: an active watch under the name, for which the search stands in,
/// in the category found, with the filters, the prices and the queries of the form.
pub proof fn saving_asks_for_the_form(state: GuidedView)
    ensures
        ({
            let req = request_of(state);
            &&& trimmed(state.name).len() > 0 ==> req.name == trimmed(state.name)
            &&& trimmed(state.name).len() == 0 ==> req.name == trimmed(state.text)
            &&& req.active
            &&& req.family is None && req.model is None && req.min_capacity_gb is None
            &&& req.min_price_cents == typed_cents(state.min_price)
            &&& req.max_price_cents == typed_cents(state.max_price)
            &&& req.category is Some <==> state.interpretation is Some && (
            state.interpretation->0).category is Some
            &&& req.category is Some ==> req.category == Some(
                ((state.interpretation->0).category->0).slug,
            )
            &&& req.spec_filters == meant(state.filters)
            &&& req.queries == typed_queries(split_on(state.queries, ','))
        }),
{
}

/// A deal fits a draft exactly where the user has not put it aside, it is of the category,
/// it meets the filters and its price lies between the bounds.
pub proof fn what_fits_a_draft(
    deal: DealView,
    slug: Seq<char>,
    filters: Seq<SpecFilterView>,
    min: Option<i64>,
    max: Option<i64>,
)
    ensures
        fits(deal, slug, filters, min, max) <==> deal.moderation == Moderation::Unmoderated
            && deal.category == Some(slug) && all_met(filters, deal.specs) && (min is None
            || deal.price_cents >= min->0) && (max is None || deal.price_cents <= max->0),
{
}

/// The deals previewed are exactly those that fit, in order.
pub proof fn every_deal_that_fits_is_previewed(
    slug: Seq<char>,
    filters: Seq<SpecFilterView>,
    min: Option<i64>,
    max: Option<i64>,
    deals: Seq<DealView>,
)
    ensures
        fitting(deals, slug, filters, min, max) == deals.filter(
            |x: DealView| fits(x, slug, filters, min, max),
        ),
    decreases deals.len(),
{
    reveal(Seq::filter);
    if deals.len() > 0 {
        every_deal_that_fits_is_previewed(slug, filters, min, max, deals.drop_last());
    }
    assert(fitting(deals, slug, filters, min, max) =~= deals.filter(
        |x: DealView| fits(x, slug, filters, min, max),
    ));
}

/// The preview goes by the category found and by what the form says; without a category
/// there is none.
pub proof fn previews_go_by_the_form(state: GuidedView, deals: Seq<DealView>)
    ensures
        state.interpretation is None || (state.interpretation->0).category is None ==> previewed(
            state,
            deals,
        ).len() == 0,
        state.interpretation is Some && (state.interpretation->0).category is Some ==> previewed(
            state,
            deals,
        ) == deals.filter(
            |x: DealView|
                fits(
                    x,
                    ((state.interpretation->0).category->0).slug,
                    meant(state.filters),
                    typed_cents(state.min_price),
                    typed_cents(state.max_price),
                ),
        ),
{
    if state.interpretation is Some && (state.interpretation->0).category is Some {
        let slug = ((state.interpretation->0).category->0).slug;
        let filters = meant(state.filters);
        let min = typed_cents(state.min_price);
        let max = typed_cents(state.max_price);
        every_deal_that_fits_is_previewed(slug, filters, min, max, deals);
        assert((|x: DealView|
            fits(
                x,
                ((state.interpretation->0).category->0).slug,
                meant(state.filters),
                typed_cents(state.min_price),
                typed_cents(state.max_price),
            )) =~= (|x: DealView| fits(x, slug, filters, min, max)));
    }
}

/// What the user said is every turn of theirs, in order.
pub proof fn every_user_turn_is_told(chat: Seq<ChatTurnView>)
    ensures
        user_turns(chat) == chat.filter(|t: ChatTurnView| t.role == "user"@).map_values(
            |t: ChatTurnView| t.content,
        ),
    decreases chat.len(),
{
    reveal(Seq::filter);
    let p = |t: ChatTurnView| t.role == "user"@;
    let f = |t: ChatTurnView| t.content;
    if chat.len() > 0 {
        let rest = chat.drop_last();
        every_user_turn_is_told(rest);
        if p(chat.last()) {
            assert(rest.filter(p).push(chat.last()).map_values(f) =~= rest.filter(p).map_values(
                f,
            ).push(chat.last().content));
        }
    }
    assert(user_turns(chat) =~= chat.filter(p).map_values(f));
}

/// An exchange adds what was asked and what was answered; the line that sums a
/// conversation up holds what the user said.
pub proof fn exchanges_are_added(chat: Seq<ChatTurnView>, asked: Seq<char>, answer: Seq<char>)
    ensures
        talked(chat, asked, answer) == chat + seq![
            ChatTurnView { role: "user"@, content: asked },
            ChatTurnView { role: "assistant"@, content: answer },
        ],
        user_turns(chat).len() == 0 ==> conversation_line(chat) is None,
        user_turns(chat).len() > 0 ==> conversation_line(chat) == Some(
            "conversation so far: "@ + joined(user_turns(chat), " · "@),
        ),
{
    assert(talked(chat, asked, answer) =~= chat + seq![
        ChatTurnView { role: "user"@, content: asked },
        ChatTurnView { role: "assistant"@, content: answer },
    ]);
}

/// What the flow says of an interpretation: the category and how it was found, else that
/// one was drafted, else that there is no LLM, else that nothing is known.
pub proof fn interpretations_are_confirmed(interp: InterpretationView)
    ensures
        interp.category matches Some(c) ==> confirmed(interp) == (ConfirmationView::Understood {
            label: c.label,
            via: "(via "@ + interp.via + ")"@,
        }),
        interp.category is None && interp.proposal is Some ==> confirmed(interp)
            == ConfirmationView::Drafted,
        interp.category is None && interp.proposal is None && !interp.llm_active ==> confirmed(
            interp,
        ) == ConfirmationView::NoLlm,
        interp.category is None && interp.proposal is None && interp.llm_active ==> confirmed(
            interp,
        ) == ConfirmationView::Unknown,
{
}

/// What the flow says of controls, sources and counts.
pub proof fn the_flow_says(
    spec: CategorySpecView,
    unit: Seq<char>,
    source: Seq<char>,
    listings: u64,
    error: Seq<char>,
    count: nat,
)
    ensures
        spec.kind == SpecKind::Number && spec.unit == Some(unit) && unit.len() > 0 ==> control_title(
            spec,
        ) == spec.label + " ("@ + unit + ")"@,
        spec.kind == SpecKind::Number && (spec.unit is None || (spec.unit->0).len() == 0)
            ==> control_title(spec) == spec.label,
        spec.kind == SpecKind::Enum ==> control_title(spec) == spec.label + ":"@,
        spec.kind == SpecKind::Boolean ==> control_title(spec) == spec.label,
        progress_text(source, SourceProgressView::Pending) == source + ": searching…"@,
        progress_text(source, SourceProgressView::Done { listings }) == source + ": "@ + nat_text(
            listings as nat,
        ) + " found"@,
        progress_text(source, SourceProgressView::Error { message: error }) == source
            + ": failed"@,
        count_line(1) == nat_text(1) + " matching deal right now"@,
        count != 1 ==> count_line(count) == nat_text(count) + " matching deals right now"@,
{
    reveal_strlit(" matching deal");
    reveal_strlit("s");
    reveal_strlit("");
    reveal_strlit(" right now");
    reveal_strlit(" matching deal right now");
    reveal_strlit(" matching deals right now");
    assert(" matching deal"@ + ""@ + " right now"@ =~= " matching deal right now"@);
    assert(" matching deal"@ + "s"@ + " right now"@ =~= " matching deals right now"@);
    assert(count_line(1) =~= nat_text(1) + (" matching deal"@ + ""@ + " right now"@));
    if count != 1 {
        assert(count_line(count) =~= nat_text(count) + (" matching deal"@ + "s"@ + " right now"@));
    }
}

/// The progress of a search names every source, in order.
pub proof fn progress_names_every_source(job: SearchJobView)
    ensures
        job.done ==> progress_line(job) == "Live search done — "@ + joined(
            job.sources.map_values(
                |s: (Seq<char>, SourceProgressView)| progress_text(s.0, s.1),
            ),
            " · "@,
        ),
        !job.done ==> progress_line(job) == "Live search running — "@ + joined(
            job.sources.map_values(
                |s: (Seq<char>, SourceProgressView)| progress_text(s.0, s.1),
            ),
            " · "@,
        ),
{
    assert(Seq::new(
        job.sources.len(),
        |i: int| progress_text(job.sources[i].0, job.sources[i].1),
    ) =~= job.sources.map_values(|s: (Seq<char>, SourceProgressView)| progress_text(s.0, s.1)));
}

} // verus!
