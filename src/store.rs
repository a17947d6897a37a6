//! The survey store: records kept in memory, read back as JSON text.
use vstd::prelude::*;
use crate::inputs::{fits, CreateSurveyCommand, PageConfig, UpdateSurveyCommand};
use crate::json::{
    ascii_bytes, json_opt_string, json_string, opt_view, push_ascii, push_json_opt_string,
    push_json_string, MAX_LITERAL_LEN,
};

verus! {

/// The most surveys one store holds.
pub const MAX_SURVEYS: usize = 10_000;

/// The most bytes that the JSON text of one stored survey takes.
pub const MAX_SURVEY_JSON_LEN: usize = 4 * MAX_LITERAL_LEN + 128;

#[derive(Clone, Debug)]
pub struct Survey {
    pub id: String,
    pub author: Option<String>,
    pub title: String,
    pub description: Option<String>,
}

/// Why the store did not do what it was asked.
#[derive(Clone, Copy, Debug, PartialEq, Eq, Structural)]
pub enum StoreError {
    /// No survey has the id asked for.
    NotFound,
    /// A survey with that id is already stored.
    DuplicateId,
    /// The store holds `MAX_SURVEYS` surveys.
    Full,
}

impl Survey {
    pub open spec fn wf(&self) -> bool {
        &&& fits(self.id@) && self.id@.len() > 0
        &&& self.author matches Some(a) ==> fits(a@)
        &&& fits(self.title@)
        &&& self.description matches Some(d) ==> fits(d@)
    }
}

/// A survey as a JSON object.
pub open spec fn survey_json(s: Survey) -> Seq<u8> {
    ascii_bytes("{\"id\":"@) + json_string(s.id@) + ascii_bytes(",\"author\":"@)
        + json_opt_string(opt_view(&s.author)) + ascii_bytes(",\"title\":"@) + json_string(
        s.title@,
    ) + ascii_bytes(",\"description\":"@) + json_opt_string(opt_view(&s.description))
        + ascii_bytes("}"@)
}

/// JSON values separated by commas.
pub open spec fn joined(items: Seq<Seq<u8>>) -> Seq<u8>
    decreases items.len(),
{
    if items.len() == 0 {
        Seq::empty()
    } else if items.len() == 1 {
        items[0]
    } else {
        joined(items.drop_last()) + seq![44u8] + items.last()
    }
}

/// A JSON array of surveys.
pub open spec fn surveys_json(ss: Seq<Survey>) -> Seq<u8> {
    seq![91u8] + joined(ss.map_values(|s: Survey| survey_json(s))) + seq![93u8]
}

/// Whether some survey of `ss` has the id `id`.
pub open spec fn has_id(ss: Seq<Survey>, id: Seq<char>) -> bool {
    exists|i: int| 0 <= i < ss.len() && ss[i].id@ == id
}

/// The survey of `ss` with the id `id`, if any.
pub open spec fn survey_with_id(ss: Seq<Survey>, id: Seq<char>) -> Option<Survey> {
    if has_id(ss, id) {
        Some(ss[choose|i: int| 0 <= i < ss.len() && ss[i].id@ == id])
    } else {
        None
    }
}

/// The survey `id` if `requester` wrote it; what anyone else sees is nothing.
pub open spec fn visible_survey(ss: Seq<Survey>, id: Seq<char>, requester: Seq<char>) -> Option<
    Survey,
> {
    match survey_with_id(ss, id) {
        Some(s) => if opt_view(&s.author) == Some(requester) {
            Some(s)
        } else {
            None
        },
        None => None,
    }
}

/// Whether `s` was written by `author`.
pub open spec fn written_by(s: Survey, author: Seq<char>) -> bool {
    opt_view(&s.author) == Some(author)
}

/// The surveys of `ss` that `author` wrote, in store order.
pub open spec fn owned_by(ss: Seq<Survey>, author: Seq<char>) -> Seq<Survey>
    decreases ss.len(),
{
    if ss.len() == 0 {
        Seq::empty()
    } else if written_by(ss.last(), author) {
        owned_by(ss.drop_last(), author).push(ss.last())
    } else {
        owned_by(ss.drop_last(), author)
    }
}

/// The first position of a page, and the one after its last, within `len` items.
pub open spec fn page_bounds(len: int, page: Option<PageConfig>) -> (int, int) {
    match page {
        None => (0, len),
        Some(p) => {
            let start = p.page_num * p.page_size;
            let end = start + p.page_size;
            (if start < len { start } else { len }, if end < len { end } else { len })
        },
    }
}

/// The items of a page.
pub open spec fn page_of(items: Seq<Survey>, page: Option<PageConfig>) -> Seq<Survey> {
    let (lo, hi) = page_bounds(items.len() as int, page);
    items.subrange(lo, hi)
}

/// What a store holds.
pub struct SurveyStore {
    surveys: Vec<Survey>,
}

impl View for SurveyStore {
    type V = Seq<Survey>;

    closed spec fn view(&self) -> Seq<Survey> {
        self.surveys@
    }
}

/// Whether `s` is the record that creating `cmd` under `id` stores.
pub open spec fn is_created(s: Survey, id: Seq<char>, cmd: CreateSurveyCommand) -> bool {
    &&& s.id@ == id
    &&& opt_view(&s.author) == opt_view(&cmd.author)
    &&& s.title@ == cmd.title@
    &&& opt_view(&s.description) == opt_view(&cmd.description)
}

/// Whether `new` is `old` with the fields that `cmd` gives replaced.
pub open spec fn is_updated(new: Survey, old: Survey, cmd: UpdateSurveyCommand) -> bool {
    &&& new.id@ == old.id@
    &&& opt_view(&new.author) == opt_view(&old.author)
    &&& new.title@ == (match cmd.title {
        Some(t) => t@,
        None => old.title@,
    })
    &&& opt_view(&new.description) == (match cmd.description {
        Some(d) => Some(d@),
        None => opt_view(&old.description),
    })
}

impl SurveyStore {
    /// At most `MAX_SURVEYS` records, each well formed, no two with one id.
    pub open spec fn wf(&self) -> bool {
        &&& self@.len() <= MAX_SURVEYS
        &&& forall|i: int| 0 <= i < self@.len() ==> (#[trigger] self@[i]).wf()
        &&& forall|i: int, j: int|
            0 <= i < self@.len() && 0 <= j < self@.len() && i != j ==> (#[trigger] self@[i]).id@
                != (#[trigger] self@[j]).id@
    }

    /// An empty store.
    pub fn new() -> (r: SurveyStore)
        ensures
            r.wf(),
            r@.len() == 0,
    {
        SurveyStore { surveys: Vec::new() }
    }

    /// The number of surveys stored.
    pub fn len(&self) -> (r: usize)
        ensures
            r == self@.len(),
    {
        self.surveys.len()
    }

    fn index_of(&self, id: &String) -> (r: Option<usize>)
        ensures
            r matches Some(i) ==> i < self@.len() && self@[i as int].id@ == id@,
            r is None ==> !has_id(self@, id@),
    {
        let mut i: usize = 0;
        while i < self.surveys.len()
            invariant
                i <= self@.len(),
                forall|j: int| 0 <= j < i ==> self@[j].id@ != id@,
            decreases self@.len() - i,
        {
            if self.surveys[i].id == *id {
                return Some(i);
            }
            i = i + 1;
        }
        None
    }

    /// Stores the survey that `cmd` describes under the new id `id`.
    pub fn create(&mut self, id: String, cmd: CreateSurveyCommand) -> (r: Result<
        String,
        StoreError,
    >)
        requires
            old(self).wf(),
            cmd.wf(),
            fits(id@),
            id@.len() > 0,
        ensures
            final(self).wf(),
            has_id(old(self)@, id@) ==> r == Err::<String, StoreError>(StoreError::DuplicateId)
                && final(self)@ == old(self)@,
            !has_id(old(self)@, id@) && old(self)@.len() == MAX_SURVEYS ==> r == Err::<
                String,
                StoreError,
            >(StoreError::Full) && final(self)@ == old(self)@,
            !has_id(old(self)@, id@) && old(self)@.len() < MAX_SURVEYS ==> {
                &&& r matches Ok(rid) && rid@ == id@
                &&& final(self)@.len() == old(self)@.len() + 1
                &&& final(self)@.drop_last() == old(self)@
                &&& is_created(final(self)@.last(), id@, cmd)
            },
    {
        if self.index_of(&id).is_some() {
            return Err(StoreError::DuplicateId);
        }
        if self.surveys.len() >= MAX_SURVEYS {
            return Err(StoreError::Full);
        }
        let ghost before = self@;
        let CreateSurveyCommand { author, title, description } = cmd;
        let survey = Survey { id: id.clone(), author, title, description };
        self.surveys.push(survey);
        assert(self@.drop_last() =~= before);
        assert forall|i: int, j: int|
            0 <= i < self@.len() && 0 <= j < self@.len() && i != j implies (
            #[trigger] self@[i]).id@ != (#[trigger] self@[j]).id@ by {
            if i < before.len() && j < before.len() {
                assert(self@[i] == before[i] && self@[j] == before[j]);
            } else if i < before.len() {
                assert(self@[i] == before[i]);
            } else {
                assert(self@[j] == before[j]);
            }
        }
        Ok(id)
    }

    /// Replaces the fields that `cmd` gives in the survey `cmd.id`.
    pub fn update(&mut self, cmd: UpdateSurveyCommand) -> (r: Result<String, StoreError>)
        requires
            old(self).wf(),
            cmd.wf(),
        ensures
            final(self).wf(),
            !has_id(old(self)@, cmd.id@) ==> r == Err::<String, StoreError>(StoreError::NotFound)
                && final(self)@ == old(self)@,
            has_id(old(self)@, cmd.id@) ==> {
                &&& r matches Ok(rid) && rid@ == cmd.id@
                &&& final(self)@.len() == old(self)@.len()
                &&& forall|i: int|
                    0 <= i < old(self)@.len() ==> if old(self)@[i].id@ == cmd.id@ {
                        is_updated(#[trigger] final(self)@[i], old(self)@[i], cmd)
                    } else {
                        final(self)@[i] == old(self)@[i]
                    }
            },
    {
        let i = match self.index_of(&cmd.id) {
            Some(i) => i,
            None => return Err(StoreError::NotFound),
        };
        let ghost before = self@;
        let UpdateSurveyCommand { id, title, description } = cmd;
        let new_title = match title {
            Some(t) => t,
            None => self.surveys[i].title.clone(),
        };
        let new_description = match description {
            Some(d) => Some(d),
            None => self.surveys[i].description.clone(),
        };
        let survey = Survey {
            id: self.surveys[i].id.clone(),
            author: self.surveys[i].author.clone(),
            title: new_title,
            description: new_description,
        };
        self.surveys.set(i, survey);
        assert forall|j: int| 0 <= j < self@.len() implies (#[trigger] self@[j]).wf() by {
            if j != i {
                assert(self@[j] == before[j]);
            }
        }
        assert forall|a: int, b: int|
            0 <= a < self@.len() && 0 <= b < self@.len() && a != b implies (
            #[trigger] self@[a]).id@ != (#[trigger] self@[b]).id@ by {
            assert(self@[a].id@ == before[a].id@);
            assert(self@[b].id@ == before[b].id@);
        }
        Ok(id)
    }

    /// The JSON text of the survey `id`, if `requester` wrote it.
    pub fn find_survey(&self, id: &String, requester: &String) -> (r: Option<Vec<u8>>)
        requires
            self.wf(),
        ensures
            match visible_survey(self@, id@, requester@) {
                Some(s) => r matches Some(b) && b@ == survey_json(s),
                None => r is None,
            },
    {
        let i = match self.index_of(id) {
            Some(i) => i,
            None => return None,
        };
        proof {
            let k = choose|k: int| 0 <= k < self@.len() && self@[k].id@ == id@;
            assert(k == i);
        }
        let s = &self.surveys[i];
        let owned = match &s.author {
            Some(a) => *a == *requester,
            None => false,
        };
        if !owned {
            return None;
        }
        let mut out: Vec<u8> = Vec::new();
        write_survey(&mut out, s);
        Some(out)
    }

    /// A JSON array of the surveys that `author` wrote, in store order, cut to `page`.
    pub fn find_by_author(&self, author: &String, page: Option<PageConfig>) -> (r: Vec<u8>)
        requires
            self.wf(),
        ensures
            r@ == surveys_json(page_of(owned_by(self@, author@), page)),
    {
        let mut owned: Vec<usize> = Vec::new();
        let mut i: usize = 0;
        while i < self.surveys.len()
            invariant
                self.wf(),
                i <= self@.len(),
                owned@.len() <= i,
                forall|k: int| 0 <= k < owned@.len() ==> (#[trigger] owned@[k]) < self@.len(),
                owned@.map_values(|j: usize| self@[j as int]) == owned_by(
                    self@.subrange(0, i as int),
                    author@,
                ),
            decreases self@.len() - i,
        {
            let ghost prev = owned@;
            assert(self@.subrange(0, i + 1).drop_last() =~= self@.subrange(0, i as int));
            let mine = match &self.surveys[i].author {
                Some(a) => *a == *author,
                None => false,
            };
            if mine {
                owned.push(i);
                assert(owned@.map_values(|j: usize| self@[j as int]) =~= prev.map_values(
                    |j: usize| self@[j as int],
                ).push(self@[i as int]));
            }
            i = i + 1;
        }
        assert(self@.subrange(0, i as int) =~= self@);
        let ghost items = owned_by(self@, author@);
        let n = owned.len();
        let (start, end) = match page {
            None => (0usize, n),
            Some(p) => match p.page_num.checked_mul(p.page_size) {
                None => (n, n),
                Some(first) => (
                    if first < n {
                        first
                    } else {
                        n
                    },
                    match first.checked_add(p.page_size) {
                        Some(last) => if last < n {
                            last
                        } else {
                            n
                        },
                        None => n,
                    },
                ),
            },
        };
        assert(items.len() == n);
        assert((start as int, end as int) == page_bounds(items.len() as int, page));
        let mut out: Vec<u8> = vec![91u8];
        let mut k: usize = start;
        while k < end
            invariant
                self.wf(),
                start <= end <= n,
                start <= k <= end,
                n == owned@.len(),
                n <= MAX_SURVEYS,
                forall|m: int| 0 <= m < owned@.len() ==> (#[trigger] owned@[m]) < self@.len(),
                owned@.map_values(|j: usize| self@[j as int]) == items,
                out@ == seq![91u8] + joined(
                    items.subrange(start as int, k as int).map_values(|s: Survey| survey_json(s)),
                ),
                out@.len() <= 1 + (k - start) * (MAX_SURVEY_JSON_LEN + 1),
            decreases end - k,
        {
            let ghost before = items.subrange(start as int, k as int).map_values(
                |s: Survey| survey_json(s),
            );
            let s = &self.surveys[owned[k]];
            assert(items[k as int] == self@[owned@[k as int] as int]);
            assert((k - start) * (MAX_SURVEY_JSON_LEN + 1) <= MAX_SURVEYS * (MAX_SURVEY_JSON_LEN
                + 1)) by (nonlinear_arith)
                requires
                    k - start <= MAX_SURVEYS,
            ;
            if k > start {
                out.push(44u8);
            }
            write_survey(&mut out, s);
            let ghost after = items.subrange(start as int, k + 1).map_values(
                |s: Survey| survey_json(s),
            );
            assert(after =~= before.push(survey_json(items[k as int])));
            assert(after.drop_last() =~= before);
            assert((k + 1 - start) * (MAX_SURVEY_JSON_LEN + 1) == (k - start) * (MAX_SURVEY_JSON_LEN
                + 1) + MAX_SURVEY_JSON_LEN + 1) by (nonlinear_arith);
            k = k + 1;
        }
        out.push(93u8);
        assert(items.subrange(start as int, end as int) == page_of(items, page));
        out
    }
}

/// Appends the JSON text of `s` to `out`.
fn write_survey(out: &mut Vec<u8>, s: &Survey)
    requires
        s.wf(),
        old(out)@.len() <= usize::MAX - MAX_SURVEY_JSON_LEN,
    ensures
        final(out)@ == old(out)@ + survey_json(*s),
        final(out)@.len() <= old(out)@.len() + MAX_SURVEY_JSON_LEN,
{
    let ghost start = out@;
    proof {
        reveal_strlit("{\"id\":");
        reveal_strlit(",\"author\":");
        reveal_strlit(",\"title\":");
        reveal_strlit(",\"description\":");
        reveal_strlit("}");
    }
    push_ascii(out, "{\"id\":");
    push_json_string(out, s.id.as_str());
    push_ascii(out, ",\"author\":");
    push_json_opt_string(out, &s.author);
    push_ascii(out, ",\"title\":");
    push_json_string(out, s.title.as_str());
    push_ascii(out, ",\"description\":");
    push_json_opt_string(out, &s.description);
    push_ascii(out, "}");
    assert(out@ =~= start + survey_json(*s));
}

/// A survey added under a fresh id is what its author's lookup of that id finds, and its
/// JSON text begins with that id.
pub proof fn lemma_created_survey_visible(ss: Seq<Survey>, s: Survey, author: Seq<char>)
    requires
        !has_id(ss, s.id@),
        opt_view(&s.author) == Some(author),
    ensures
        visible_survey(ss.push(s), s.id@, author) == Some(s),
        survey_json(s).subrange(0, 6 + json_string(s.id@).len() as int) == ascii_bytes("{\"id\":"@)
            + json_string(s.id@),
{
    let t = ss.push(s);
    assert(t[ss.len() as int].id@ == s.id@);
    assert(has_id(t, s.id@));
    let k = choose|k: int| 0 <= k < t.len() && t[k].id@ == s.id@;
    if k < ss.len() {
        assert(ss[k].id@ == s.id@);
    }
    reveal_strlit("{\"id\":");
    assert(survey_json(s).subrange(0, 6 + json_string(s.id@).len() as int) =~= ascii_bytes("{\"id\":"@)
        + json_string(s.id@));
}

/// A lookup scoped to one identity of a survey that another wrote finds nothing.
pub proof fn lemma_foreign_survey_hidden(ss: Seq<Survey>, id: Seq<char>, requester: Seq<char>)
    requires
        survey_with_id(ss, id) matches Some(s) && opt_view(&s.author) != Some(requester),
    ensures
        visible_survey(ss, id, requester) is None,
{
}

} // verus!
