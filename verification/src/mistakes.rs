//! The mistake book kept in `<workdir>/.sacode/mistakes.json`: failures of
//! tools and model calls, appended as they happen.

use vstd::prelude::*;

verus! {

#[derive(Debug)]
pub struct MistakeEntry {
    pub timestamp: String,
    pub scope: String,
    pub summary: String,
    pub details: String,
}

#[derive(Debug)]
pub struct MistakeBook {
    pub entries: Vec<MistakeEntry>,
}

/// Where the mistake book lives.
#[derive(Debug)]
pub struct MistakeBookStore {
    path: String,
}

pub ghost struct MistakeView {
    pub timestamp: Seq<char>,
    pub scope: Seq<char>,
    pub summary: Seq<char>,
    pub details: Seq<char>,
}

impl View for MistakeEntry {
    type V = MistakeView;

    open spec fn view(&self) -> MistakeView {
        MistakeView {
            timestamp: self.timestamp@,
            scope: self.scope@,
            summary: self.summary@,
            details: self.details@,
        }
    }
}

impl View for MistakeBook {
    type V = Seq<MistakeView>;

    open spec fn view(&self) -> Seq<MistakeView> {
        self.entries@.map_values(|e: MistakeEntry| e@)
    }
}

impl MistakeBook {
    /// An empty book (what a missing file reads as).
    pub fn empty() -> (r: Self)
        ensures
            r@.len() == 0,
    {
        let r = MistakeBook { entries: Vec::new() };
        assert(r@ =~= Seq::<MistakeView>::empty());
        r
    }
}

impl MistakeBookStore {
    pub closed spec fn path_view(&self) -> Seq<char> {
        self.path@
    }

    /// The store for a working directory: `<workdir>/.sacode/mistakes.json`.
    pub fn new(workdir: &str) -> (r: Self)
        ensures
            r.path_view() == crate::paths::path_join(workdir@, ".sacode/mistakes.json"@),
    {
        MistakeBookStore { path: crate::paths::join_path(workdir, ".sacode/mistakes.json") }
    }

    pub fn path(&self) -> (r: &str)
        ensures
            r@ == self.path_view(),
    {
        self.path.as_str()
    }

    /// The book as loading gives it (empty when the file is missing); this
    /// is also what gets written back.
    pub fn ensure_exists(&self, stored: Option<MistakeBook>) -> (r: MistakeBook)
        ensures
            r@ == match stored {
                Some(b) => b@,
                None => Seq::empty(),
            },
    {
        match stored {
            Some(b) => b,
            None => MistakeBook::empty(),
        }
    }

    /// Appends an entry stamped `timestamp`.
    pub fn append_at(&self, book: &mut MistakeBook, scope: &str, summary: &str, details: &str, timestamp: &str)
        ensures
            final(book)@ == old(book)@.push(
                MistakeView { timestamp: timestamp@, scope: scope@, summary: summary@, details: details@ },
            ),
    {
        let e = MistakeEntry {
            timestamp: String::from_str(timestamp),
            scope: String::from_str(scope),
            summary: String::from_str(summary),
            details: String::from_str(details),
        };
        let ghost prev = book.entries@;
        book.entries.push(e);
        proof {
            prev.lemma_push_map_commute(|x: MistakeEntry| x@, e);
        }
    }

    /// Appends an entry stamped with the current Unix time in seconds.
    pub fn append(&self, book: &mut MistakeBook, scope: &str, summary: &str, details: &str)
        ensures
            final(book)@.len() == old(book)@.len() + 1,
            final(book)@.take(old(book)@.len() as int) == old(book)@,
            ({
                let e = final(book)@.last();
                &&& e.scope == scope@
                &&& e.summary == summary@
                &&& e.details == details@
                &&& (e.timestamp == "0"@ || exists|n: u64| e.timestamp == crate::text::decimal(n as nat))
            }),
    {
        let ts = crate::clock::unix_timestamp_string();
        self.append_at(book, scope, summary, details, ts.as_str());
        assert(book@.take(old(book)@.len() as int) =~= old(book)@);
    }
}

} // verus!
