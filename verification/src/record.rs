//! Output rows, and the rows of an earlier output kept for reuse.
use vstd::prelude::*;
use crate::listing::same_text;

verus! {

/// One row of the output: the URL as it stood in the input, where it led,
/// and the two titles. A title that is missing is the empty string.
#[derive(Debug, PartialEq, Eq)]
pub struct UrlRecord {
    pub url: String,
    pub end_url: String,
    pub page_title: String,
    pub article_title: String,
}

/// The mathematical value of a `UrlRecord`.
pub struct RecordView {
    pub url: Seq<char>,
    pub end_url: Seq<char>,
    pub page_title: Seq<char>,
    pub article_title: Seq<char>,
}

impl View for UrlRecord {
    type V = RecordView;

    open spec fn view(&self) -> RecordView {
        RecordView {
            url: self.url@,
            end_url: self.end_url@,
            page_title: self.page_title@,
            article_title: self.article_title@,
        }
    }
}

/// Whether a row carries at least one title that is not empty.
pub open spec fn titled(row: RecordView) -> bool {
    row.page_title.len() > 0 || row.article_title.len() > 0
}

/// The views of a list of rows.
pub open spec fn views(rows: Seq<UrlRecord>) -> Seq<RecordView> {
    Seq::new(rows.len(), |i: int| rows[i]@)
}

/// The row that `rows` gives for reuse under `url`: the last titled row with
/// that URL. Rows without a title are never reused.
pub open spec fn reusable(rows: Seq<RecordView>, url: Seq<char>) -> Option<RecordView>
    decreases rows.len(),
{
    if rows.len() == 0 {
        None
    } else if rows.last().url == url && titled(rows.last()) {
        Some(rows.last())
    } else {
        reusable(rows.drop_last(), url)
    }
}

impl UrlRecord {
    /// Whether the row carries at least one title that is not empty.
    pub fn has_title(&self) -> (r: bool)
        ensures
            r == titled(self@),
    {
        !self.page_title.as_str().is_empty() || !self.article_title.as_str().is_empty()
    }

    /// A copy of the row.
    pub fn copy(&self) -> (r: UrlRecord)
        ensures
            r@ == self@,
    {
        UrlRecord {
            url: self.url.clone(),
            end_url: self.end_url.clone(),
            page_title: self.page_title.clone(),
            article_title: self.article_title.clone(),
        }
    }
}

/// The rows of an earlier output that can be reused, by URL. It is built
/// once and only read afterwards.
pub struct Cache {
    rows: Vec<UrlRecord>,
}

impl View for Cache {
    type V = Map<Seq<char>, RecordView>;

    /// The cache as a mapping from URL to row.
    open spec fn view(&self) -> Map<Seq<char>, RecordView> {
        Map::new(
            |url: Seq<char>| self.lookup(url) is Some,
            |url: Seq<char>| self.lookup(url).unwrap(),
        )
    }
}

impl Cache {
    /// Every row kept carries a title.
    #[verifier::type_invariant]
    spec fn well_formed(&self) -> bool {
        forall|i: int| 0 <= i < self.rows.len() ==> titled(#[trigger] self.rows@[i]@)
    }

    /// The row kept under `url`, if any.
    pub closed spec fn lookup(&self, url: Seq<char>) -> Option<RecordView> {
        reusable(views(self.rows@), url)
    }

    /// Builds the cache from the rows of an earlier output, in the order in
    /// which they stood there. Rows without a title are left out; of several
    /// titled rows with one URL the last counts.
    pub fn from_rows(rows: Vec<UrlRecord>) -> (r: Cache)
        ensures
            forall|url: Seq<char>| r.lookup(url) == reusable(views(rows@), url),
    {
        let mut kept: Vec<UrlRecord> = Vec::new();
        let mut i: usize = 0;
        while i < rows.len()
            invariant
                i <= rows.len(),
                forall|k: int| 0 <= k < kept.len() ==> titled(#[trigger] kept@[k]@),
                forall|url: Seq<char>|
                    reusable(views(kept@), url) == reusable(views(rows@.take(i as int)), url),
            decreases rows.len() - i,
        {
            let ghost before = views(kept@);
            let ghost head = views(rows@.take(i as int));
            let ghost next = views(rows@.take(i + 1));
            proof {
                assert(next.drop_last() =~= head);
                assert(next.last() == rows@[i as int]@);
            }
            if rows[i].has_title() {
                kept.push(rows[i].copy());
                proof {
                    assert(views(kept@).drop_last() =~= before);
                    assert(views(kept@).last() == rows@[i as int]@);
                }
            }
            assert forall|url: Seq<char>|
                reusable(views(kept@), url) == reusable(next, url) by {
                assert(reusable(before, url) == reusable(head, url));
            }
            i += 1;
        }
        assert(rows@.take(rows.len() as int) =~= rows@);
        Cache { rows: kept }
    }

    /// The row kept under `url`, if any.
    pub fn get(&self, url: &str) -> (r: Option<UrlRecord>)
        ensures
            r is Some <==> self.lookup(url@) is Some,
            r is Some ==> self.lookup(url@) == Some(r.unwrap()@),
    {
        proof {
            use_type_invariant(self);
        }
        let mut i: usize = self.rows.len();
        assert(self.rows@.take(i as int) =~= self.rows@);
        while i > 0
            invariant
                i <= self.rows.len(),
                self.well_formed(),
                reusable(views(self.rows@), url@) == reusable(views(self.rows@.take(i as int)), url@),
            decreases i,
        {
            let ghost cur = views(self.rows@.take(i as int));
            proof {
                assert(cur.last() == self.rows@[i - 1]@);
                assert(cur.drop_last() =~= views(self.rows@.take(i - 1)));
            }
            if same_text(self.rows[i - 1].url.as_str(), url) {
                return Some(self.rows[i - 1].copy());
            }
            i -= 1;
        }
        None
    }

    /// A row kept under `url` has that URL and carries a title.
    pub proof fn lookup_is_titled_row_of_url(&self, url: Seq<char>)
        ensures
            self.lookup(url) is Some ==> self.lookup(url).unwrap().url == url && titled(
                self.lookup(url).unwrap(),
            ),
    {
        reusable_is_a_titled_row(views(self.rows@), url);
    }
}

/// A row that is reusable was titled, and stood in the rows under that URL.
pub proof fn reusable_is_a_titled_row(rows: Seq<RecordView>, url: Seq<char>)
    ensures
        reusable(rows, url) is Some ==> {
            let row = reusable(rows, url).unwrap();
            rows.contains(row) && row.url == url && titled(row)
        },
        reusable(rows, url) is None ==> forall|i: int|
            0 <= i < rows.len() ==> !(rows[i].url == url && titled(rows[i])),
    decreases rows.len(),
{
    if rows.len() > 0 {
        if rows.last().url == url && titled(rows.last()) {
            assert(rows[rows.len() - 1] == rows.last());
        } else {
            reusable_is_a_titled_row(rows.drop_last(), url);
            if reusable(rows, url) is Some {
                let row = reusable(rows, url).unwrap();
                let j = choose|j: int| 0 <= j < rows.drop_last().len() && rows.drop_last()[j] == row;
                assert(rows[j] == row);
            } else {
                assert forall|i: int| 0 <= i < rows.len() implies !(rows[i].url == url && titled(
                    rows[i],
                )) by {
                    if i < rows.len() - 1 {
                        assert(rows.drop_last()[i] == rows[i]);
                    }
                }
            }
        }
    }
}

} // verus!
