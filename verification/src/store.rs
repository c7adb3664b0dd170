//! The local mirror of one library: its collection, item and tag rows.
//!
//! Rows are kept sorted by key, which makes every key unique and gives
//! the upload phases their key-ascending order. The relational store
//! outside mirrors these rows; every mutation here says exactly which
//! rows it touched, so the outside writes can follow it row for row.

use vstd::prelude::*;
use crate::collection::Collection;
use crate::item::Item;
use crate::keyorder::key_lt;
use crate::keyorder::lemma_lex_asym;
use crate::keyorder::lemma_lex_trans;
use crate::keyorder::lemma_lex_trichotomy;
use crate::keyorder::lex_lt;
use crate::types::compare_str;
use crate::types::LibraryType;
use crate::types::TagMeta;

verus! {

/// One tag row of the local mirror.
#[derive(Debug, Clone, PartialEq)]
pub struct TagRow {
    pub tag: String,
    pub meta: TagMeta,
    pub library_id: i64,
    pub library_type: LibraryType,
}

/// Collection rows stand in strictly ascending key order.
pub open spec fn collections_sorted(s: Seq<Collection>) -> bool {
    forall|i: int, j: int| 0 <= i < j < s.len() ==> lex_lt(#[trigger] s[i].key@, #[trigger] s[j].key@)
}

/// Item rows stand in strictly ascending key order.
pub open spec fn items_sorted(s: Seq<Item>) -> bool {
    forall|i: int, j: int| 0 <= i < j < s.len() ==> lex_lt(#[trigger] s[i].key@, #[trigger] s[j].key@)
}

/// Tag rows stand in strictly ascending name order.
pub open spec fn tags_sorted(s: Seq<TagRow>) -> bool {
    forall|i: int, j: int| 0 <= i < j < s.len() ==> lex_lt(#[trigger] s[i].tag@, #[trigger] s[j].tag@)
}

/// Whether some collection row carries the given key.
pub open spec fn spec_col_has(s: Seq<Collection>, k: Seq<char>) -> bool {
    exists|i: int| 0 <= i < s.len() && #[trigger] s[i].key@ == k
}

/// Whether some item row carries the given key.
pub open spec fn spec_item_has(s: Seq<Item>, k: Seq<char>) -> bool {
    exists|i: int| 0 <= i < s.len() && #[trigger] s[i].key@ == k
}

/// Whether some tag row carries the given name.
pub open spec fn spec_tag_has(s: Seq<TagRow>, k: Seq<char>) -> bool {
    exists|i: int| 0 <= i < s.len() && #[trigger] s[i].tag@ == k
}

/// The place of the collection row with the given key.
pub open spec fn spec_col_index(s: Seq<Collection>, k: Seq<char>) -> int {
    choose|i: int| 0 <= i < s.len() && s[i].key@ == k
}

/// The place of the item row with the given key.
pub open spec fn spec_item_index(s: Seq<Item>, k: Seq<char>) -> int {
    choose|i: int| 0 <= i < s.len() && s[i].key@ == k
}

/// The locally stored version of a collection; a key with no row counts
/// as version zero.
pub open spec fn spec_col_version(s: Seq<Collection>, k: Seq<char>) -> int {
    if spec_col_has(s, k) {
        s[spec_col_index(s, k)].version as int
    } else {
        0
    }
}

/// The locally stored version of an item; a key with no row counts as
/// version zero.
pub open spec fn spec_item_version(s: Seq<Item>, k: Seq<char>) -> int {
    if spec_item_has(s, k) {
        s[spec_item_index(s, k)].version as int
    } else {
        0
    }
}

/// In a sorted collection table, each key names at most one row.
pub proof fn lemma_col_key_unique(s: Seq<Collection>, i: int, j: int)
    requires
        collections_sorted(s),
        0 <= i < s.len(),
        0 <= j < s.len(),
        s[i].key@ == s[j].key@,
    ensures
        i == j,
{
    if i < j {
        assert(lex_lt(s[i].key@, s[j].key@));
        crate::keyorder::lemma_lex_irrefl(s[i].key@);
    } else if j < i {
        assert(lex_lt(s[j].key@, s[i].key@));
        crate::keyorder::lemma_lex_irrefl(s[i].key@);
    }
}

/// In a sorted item table, each key names at most one row.
pub proof fn lemma_item_key_unique(s: Seq<Item>, i: int, j: int)
    requires
        items_sorted(s),
        0 <= i < s.len(),
        0 <= j < s.len(),
        s[i].key@ == s[j].key@,
    ensures
        i == j,
{
    if i < j {
        assert(lex_lt(s[i].key@, s[j].key@));
        crate::keyorder::lemma_lex_irrefl(s[i].key@);
    } else if j < i {
        assert(lex_lt(s[j].key@, s[i].key@));
        crate::keyorder::lemma_lex_irrefl(s[i].key@);
    }
}

/// The local mirror of one library.
#[derive(Debug, Clone, PartialEq)]
pub struct LocalStore {
    pub collections: Vec<Collection>,
    pub items: Vec<Item>,
    pub tags: Vec<TagRow>,
}

impl LocalStore {
    /// The store's invariant: each table sorted strictly by key.
    pub open spec fn wf(&self) -> bool {
        collections_sorted(self.collections@) && items_sorted(self.items@) && tags_sorted(
            self.tags@,
        )
    }

    /// An empty mirror.
    pub fn new() -> (r: LocalStore)
        ensures
            r.wf(),
            r.collections@.len() == 0,
            r.items@.len() == 0,
            r.tags@.len() == 0,
    {
        LocalStore { collections: Vec::new(), items: Vec::new(), tags: Vec::new() }
    }

    /// Empties the mirror; a library's local reset truncates all three
    /// tables.
    pub fn clear(&mut self)
        ensures
            final(self).wf(),
            final(self).collections@.len() == 0,
            final(self).items@.len() == 0,
            final(self).tags@.len() == 0,
    {
        self.collections = Vec::new();
        self.items = Vec::new();
        self.tags = Vec::new();
    }

    /// Finds the collection row with the given key.
    pub fn find_collection(&self, key: &str) -> (r: Option<usize>)
        ensures
            match r {
                Some(i) => i < self.collections@.len() && self.collections@[i as int].key@ == key@,
                None => !spec_col_has(self.collections@, key@),
            },
    {
        let n = self.collections.len();
        let mut i: usize = 0;
        while i < n
            invariant
                n == self.collections@.len(),
                i <= n,
                forall|j: int| 0 <= j < i ==> #[trigger] self.collections@[j].key@ != key@,
            decreases n - i,
        {
            if compare_str(self.collections[i].key.as_str(), key) {
                return Some(i);
            }
            i = i + 1;
        }
        None
    }

    /// The locally stored version of a collection; a key with no row
    /// counts as version zero.
    pub fn collection_version(&self, key: &str) -> (r: i64)
        requires
            self.wf(),
        ensures
            r as int == spec_col_version(self.collections@, key@),
    {
        match self.find_collection(key) {
            Some(i) => {
                proof {
                    lemma_col_key_unique(
                        self.collections@,
                        i as int,
                        spec_col_index(self.collections@, key@),
                    );
                }
                self.collections[i].version
            },
            None => 0,
        }
    }

    /// Stores a collection row: replaces the row with the same key, or
    /// inserts the row at its ordered place.
    pub fn upsert_collection(&mut self, c: Collection)
        requires
            old(self).wf(),
        ensures
            final(self).wf(),
            final(self).items == old(self).items,
            final(self).tags == old(self).tags,
            spec_col_has(final(self).collections@, c.key@),
            forall|i: int|
                0 <= i < final(self).collections@.len() && #[trigger] final(self).collections@[i].key@ == c.key@ ==> final(self).collections@[i] == c,
            forall|i: int|
                0 <= i < final(self).collections@.len() && #[trigger] final(self).collections@[i].key@ != c.key@ ==> exists|j: int|
                    0 <= j < old(self).collections@.len() && old(self).collections@[j] == final(self).collections@[i],
            forall|j: int|
                0 <= j < old(self).collections@.len() && #[trigger] old(self).collections@[j].key@ != c.key@ ==> exists|i: int|
                    0 <= i < final(self).collections@.len() && final(self).collections@[i] == old(self).collections@[j],
            spec_col_has(old(self).collections@, c.key@) ==> final(self).collections@.len() == old(
                self,
            ).collections@.len(),
            !spec_col_has(old(self).collections@, c.key@) ==> final(self).collections@.len() == old(
                self,
            ).collections@.len() + 1,
    {
        let ghost olds = self.collections@;
        let n = self.collections.len();
        let mut p: usize = 0;
        while p < n && key_lt(self.collections[p].key.as_str(), c.key.as_str())
            invariant
                n == self.collections@.len(),
                self.collections@ == olds,
                p <= n,
                forall|q: int| 0 <= q < p ==> lex_lt(#[trigger] olds[q].key@, c.key@),
            decreases n - p,
        {
            p = p + 1;
        }
        if p < n && compare_str(self.collections[p].key.as_str(), c.key.as_str()) {
            let prev = self.collections.remove(p);
            self.collections.insert(p, c);
            proof {
                let news = self.collections@;
                assert(news =~= olds.update(p as int, c));
                assert forall|i: int, j: int| 0 <= i < j < news.len() implies lex_lt(
                    #[trigger] news[i].key@,
                    #[trigger] news[j].key@,
                ) by {
                    assert(news[i].key@ == olds[i].key@);
                    assert(news[j].key@ == olds[j].key@);
                }
                assert(spec_col_has(news, c.key@)) by {
                    assert(news[p as int] == c);
                }
                assert(spec_col_has(olds, c.key@)) by {
                    assert(olds[p as int].key@ == c.key@);
                }
                assert forall|i: int|
                    0 <= i < news.len() && #[trigger] news[i].key@ != c.key@ implies exists|j: int|
                    0 <= j < olds.len() && olds[j] == news[i] by {
                    assert(news[i] == olds[i]);
                }
                assert forall|j: int|
                    0 <= j < olds.len() && #[trigger] olds[j].key@ != c.key@ implies exists|i: int|
                    0 <= i < news.len() && news[i] == olds[j] by {
                    assert(j != p);
                    assert(news[j] == olds[j]);
                }
            }
        } else {
            proof {
                if p < n {
                    lemma_lex_trichotomy(olds[p as int].key@, c.key@);
                    assert(lex_lt(c.key@, olds[p as int].key@));
                }
            }
            self.collections.insert(p, c);
            proof {
                let news = self.collections@;
                assert(news =~= olds.insert(p as int, c));
                assert forall|i: int, j: int| 0 <= i < j < news.len() implies lex_lt(
                    #[trigger] news[i].key@,
                    #[trigger] news[j].key@,
                ) by {
                    lemma_sorted_after_insert_collection(olds, c, p as int, i, j);
                }
                assert(spec_col_has(news, c.key@)) by {
                    assert(news[p as int] == c);
                }
                assert forall|i: int|
                    0 <= i < news.len() && #[trigger] news[i].key@ == c.key@ implies news[i]
                    == c by {
                    if i != p {
                        let oi = if i < p {
                            i
                        } else {
                            i - 1
                        };
                        assert(news[i] == olds[oi]);
                        if oi < p {
                            assert(lex_lt(olds[oi].key@, c.key@));
                            lemma_lex_asym(olds[oi].key@, c.key@);
                        } else {
                            assert(collections_sorted(olds));
                            if oi > p {
                                assert(lex_lt(olds[p as int].key@, olds[oi].key@));
                                lemma_lex_trans(c.key@, olds[p as int].key@, olds[oi].key@);
                            }
                            lemma_lex_asym(c.key@, olds[oi].key@);
                        }
                    }
                }
                assert forall|j: int|
                    0 <= j < olds.len() && #[trigger] olds[j].key@ != c.key@ implies exists|i: int|
                    0 <= i < news.len() && news[i] == olds[j] by {
                    if j < p {
                        assert(news[j] == olds[j]);
                    } else {
                        assert(news[j + 1] == olds[j]);
                    }
                }
                assert forall|q: int|
                    0 <= q < olds.len() implies #[trigger] olds[q].key@ != c.key@ by {
                    if q < p {
                        assert(lex_lt(olds[q].key@, c.key@));
                        lemma_lex_asym(olds[q].key@, c.key@);
                    } else {
                        if q > p {
                            assert(lex_lt(olds[p as int].key@, olds[q].key@));
                            lemma_lex_trans(c.key@, olds[p as int].key@, olds[q].key@);
                        }
                        lemma_lex_asym(c.key@, olds[q].key@);
                    }
                }
                assert(!spec_col_has(olds, c.key@));
            }
        }
    }

    /// Removes the collection row at the given place and hands it back.
    pub fn remove_collection_at(&mut self, i: usize) -> (r: Collection)
        requires
            old(self).wf(),
            i < old(self).collections@.len(),
        ensures
            final(self).wf(),
            final(self).items == old(self).items,
            final(self).tags == old(self).tags,
            r == old(self).collections@[i as int],
            final(self).collections@ == old(self).collections@.remove(i as int),
    {
        let r = self.collections.remove(i);
        proof {
            let olds = old(self).collections@;
            let news = self.collections@;
            assert forall|a: int, b: int| 0 <= a < b < news.len() implies lex_lt(
                #[trigger] news[a].key@,
                #[trigger] news[b].key@,
            ) by {
                let oa = if a < i {
                    a
                } else {
                    a + 1
                };
                let ob = if b < i {
                    b
                } else {
                    b + 1
                };
                assert(news[a] == olds[oa]);
                assert(news[b] == olds[ob]);
            }
        }
        r
    }

    /// Marks the collection row at the given place as in step with the
    /// remote at the given version.
    pub fn set_collection_synced_at(&mut self, i: usize, version: i64)
        requires
            old(self).wf(),
            i < old(self).collections@.len(),
        ensures
            final(self).wf(),
            final(self).items == old(self).items,
            final(self).tags == old(self).tags,
            final(self).collections@ == old(self).collections@.update(
                i as int,
                Collection {
                    version,
                    sync_status: crate::types::SyncStatus::Synced,
                    ..old(self).collections@[i as int]
                },
            ),
    {
        let prev = self.collections.remove(i);
        self.collections.insert(i, prev.into_synced(version));
        proof {
            let olds = old(self).collections@;
            let news = self.collections@;
            assert(news =~= olds.update(
                i as int,
                Collection {
                    version,
                    sync_status: crate::types::SyncStatus::Synced,
                    ..olds[i as int]
                },
            ));
            assert forall|a: int, b: int| 0 <= a < b < news.len() implies lex_lt(
                #[trigger] news[a].key@,
                #[trigger] news[b].key@,
            ) by {
                assert(news[a].key@ == olds[a].key@);
                assert(news[b].key@ == olds[b].key@);
            }
        }
    }

    /// Sets the tombstone of the collection row at the given place.
    pub fn set_collection_deleted_at(&mut self, i: usize)
        requires
            old(self).wf(),
            i < old(self).collections@.len(),
        ensures
            final(self).wf(),
            final(self).items == old(self).items,
            final(self).tags == old(self).tags,
            final(self).collections@ == old(self).collections@.update(
                i as int,
                Collection { deleted: true, ..old(self).collections@[i as int] },
            ),
    {
        let prev = self.collections.remove(i);
        self.collections.insert(i, prev.into_deleted());
        proof {
            let olds = old(self).collections@;
            let news = self.collections@;
            assert(news =~= olds.update(
                i as int,
                Collection { deleted: true, ..olds[i as int] },
            ));
            assert forall|a: int, b: int| 0 <= a < b < news.len() implies lex_lt(
                #[trigger] news[a].key@,
                #[trigger] news[b].key@,
            ) by {
                assert(news[a].key@ == olds[a].key@);
                assert(news[b].key@ == olds[b].key@);
            }
        }
    }

    /// Finds the item row with the given key.
    pub fn find_item(&self, key: &str) -> (r: Option<usize>)
        ensures
            match r {
                Some(i) => i < self.items@.len() && self.items@[i as int].key@ == key@,
                None => !spec_item_has(self.items@, key@),
            },
    {
        let n = self.items.len();
        let mut i: usize = 0;
        while i < n
            invariant
                n == self.items@.len(),
                i <= n,
                forall|j: int| 0 <= j < i ==> #[trigger] self.items@[j].key@ != key@,
            decreases n - i,
        {
            if compare_str(self.items[i].key.as_str(), key) {
                return Some(i);
            }
            i = i + 1;
        }
        None
    }

    /// The locally stored version of an item; a key with no row counts
    /// as version zero.
    pub fn item_version(&self, key: &str) -> (r: i64)
        requires
            self.wf(),
        ensures
            r as int == spec_item_version(self.items@, key@),
    {
        match self.find_item(key) {
            Some(i) => {
                proof {
                    lemma_item_key_unique(
                        self.items@,
                        i as int,
                        spec_item_index(self.items@, key@),
                    );
                }
                self.items[i].version
            },
            None => 0,
        }
    }

    /// Stores an item row: replaces the row with the same key, or inserts
    /// the row at its ordered place.
    pub fn upsert_item(&mut self, c: Item)
        requires
            old(self).wf(),
        ensures
            final(self).wf(),
            final(self).collections == old(self).collections,
            final(self).tags == old(self).tags,
            spec_item_has(final(self).items@, c.key@),
            forall|i: int|
                0 <= i < final(self).items@.len() && #[trigger] final(self).items@[i].key@
                    == c.key@ ==> final(self).items@[i] == c,
            forall|i: int|
                0 <= i < final(self).items@.len() && #[trigger] final(self).items@[i].key@
                    != c.key@ ==> exists|j: int|
                    0 <= j < old(self).items@.len() && old(self).items@[j] == final(self).items@[i],
            forall|j: int|
                0 <= j < old(self).items@.len() && #[trigger] old(self).items@[j].key@ != c.key@
                    ==> exists|i: int|
                    0 <= i < final(self).items@.len() && final(self).items@[i] == old(self).items@[j],
            spec_item_has(old(self).items@, c.key@) ==> final(self).items@.len() == old(
                self,
            ).items@.len(),
            !spec_item_has(old(self).items@, c.key@) ==> final(self).items@.len() == old(
                self,
            ).items@.len() + 1,
    {
        let ghost olds = self.items@;
        let n = self.items.len();
        let mut p: usize = 0;
        while p < n && key_lt(self.items[p].key.as_str(), c.key.as_str())
            invariant
                n == self.items@.len(),
                self.items@ == olds,
                p <= n,
                forall|q: int| 0 <= q < p ==> lex_lt(#[trigger] olds[q].key@, c.key@),
            decreases n - p,
        {
            p = p + 1;
        }
        if p < n && compare_str(self.items[p].key.as_str(), c.key.as_str()) {
            let prev = self.items.remove(p);
            self.items.insert(p, c);
            proof {
                let news = self.items@;
                assert(news =~= olds.update(p as int, c));
                assert forall|i: int, j: int| 0 <= i < j < news.len() implies lex_lt(
                    #[trigger] news[i].key@,
                    #[trigger] news[j].key@,
                ) by {
                    assert(news[i].key@ == olds[i].key@);
                    assert(news[j].key@ == olds[j].key@);
                }
                assert(spec_item_has(news, c.key@)) by {
                    assert(news[p as int] == c);
                }
                assert(spec_item_has(olds, c.key@)) by {
                    assert(olds[p as int].key@ == c.key@);
                }
                assert forall|i: int|
                    0 <= i < news.len() && #[trigger] news[i].key@ != c.key@ implies exists|j: int|
                    0 <= j < olds.len() && olds[j] == news[i] by {
                    assert(news[i] == olds[i]);
                }
                assert forall|j: int|
                    0 <= j < olds.len() && #[trigger] olds[j].key@ != c.key@ implies exists|i: int|
                    0 <= i < news.len() && news[i] == olds[j] by {
                    assert(j != p);
                    assert(news[j] == olds[j]);
                }
            }
        } else {
            proof {
                if p < n {
                    lemma_lex_trichotomy(olds[p as int].key@, c.key@);
                    assert(lex_lt(c.key@, olds[p as int].key@));
                }
            }
            self.items.insert(p, c);
            proof {
                let news = self.items@;
                assert(news =~= olds.insert(p as int, c));
                assert forall|i: int, j: int| 0 <= i < j < news.len() implies lex_lt(
                    #[trigger] news[i].key@,
                    #[trigger] news[j].key@,
                ) by {
                    lemma_sorted_after_insert_item(olds, c, p as int, i, j);
                }
                assert(spec_item_has(news, c.key@)) by {
                    assert(news[p as int] == c);
                }
                assert forall|i: int|
                    0 <= i < news.len() && #[trigger] news[i].key@ == c.key@ implies news[i]
                    == c by {
                    if i != p {
                        let oi = if i < p {
                            i
                        } else {
                            i - 1
                        };
                        assert(news[i] == olds[oi]);
                        if oi < p {
                            assert(lex_lt(olds[oi].key@, c.key@));
                            lemma_lex_asym(olds[oi].key@, c.key@);
                        } else {
                            assert(items_sorted(olds));
                            if oi > p {
                                assert(lex_lt(olds[p as int].key@, olds[oi].key@));
                                lemma_lex_trans(c.key@, olds[p as int].key@, olds[oi].key@);
                            }
                            lemma_lex_asym(c.key@, olds[oi].key@);
                        }
                    }
                }
                assert forall|j: int|
                    0 <= j < olds.len() && #[trigger] olds[j].key@ != c.key@ implies exists|i: int|
                    0 <= i < news.len() && news[i] == olds[j] by {
                    if j < p {
                        assert(news[j] == olds[j]);
                    } else {
                        assert(news[j + 1] == olds[j]);
                    }
                }
                assert forall|q: int|
                    0 <= q < olds.len() implies #[trigger] olds[q].key@ != c.key@ by {
                    if q < p {
                        assert(lex_lt(olds[q].key@, c.key@));
                        lemma_lex_asym(olds[q].key@, c.key@);
                    } else {
                        if q > p {
                            assert(lex_lt(olds[p as int].key@, olds[q].key@));
                            lemma_lex_trans(c.key@, olds[p as int].key@, olds[q].key@);
                        }
                        lemma_lex_asym(c.key@, olds[q].key@);
                    }
                }
                assert(!spec_item_has(olds, c.key@));
            }
        }
    }

    /// Removes the item row at the given place and hands it back.
    pub fn remove_item_at(&mut self, i: usize) -> (r: Item)
        requires
            old(self).wf(),
            i < old(self).items@.len(),
        ensures
            final(self).wf(),
            final(self).collections == old(self).collections,
            final(self).tags == old(self).tags,
            r == old(self).items@[i as int],
            final(self).items@ == old(self).items@.remove(i as int),
    {
        let r = self.items.remove(i);
        proof {
            let olds = old(self).items@;
            let news = self.items@;
            assert forall|a: int, b: int| 0 <= a < b < news.len() implies lex_lt(
                #[trigger] news[a].key@,
                #[trigger] news[b].key@,
            ) by {
                let oa = if a < i {
                    a
                } else {
                    a + 1
                };
                let ob = if b < i {
                    b
                } else {
                    b + 1
                };
                assert(news[a] == olds[oa]);
                assert(news[b] == olds[ob]);
            }
        }
        r
    }

    /// Marks the item row at the given place as in step with the remote
    /// at the given version.
    pub fn set_item_synced_at(&mut self, i: usize, version: i64)
        requires
            old(self).wf(),
            i < old(self).items@.len(),
        ensures
            final(self).wf(),
            final(self).collections == old(self).collections,
            final(self).tags == old(self).tags,
            final(self).items@ == old(self).items@.update(
                i as int,
                Item {
                    version,
                    sync_status: crate::types::SyncStatus::Synced,
                    ..old(self).items@[i as int]
                },
            ),
    {
        let prev = self.items.remove(i);
        self.items.insert(i, prev.into_synced(version));
        proof {
            let olds = old(self).items@;
            let news = self.items@;
            assert(news =~= olds.update(
                i as int,
                Item {
                    version,
                    sync_status: crate::types::SyncStatus::Synced,
                    ..olds[i as int]
                },
            ));
            assert forall|a: int, b: int| 0 <= a < b < news.len() implies lex_lt(
                #[trigger] news[a].key@,
                #[trigger] news[b].key@,
            ) by {
                assert(news[a].key@ == olds[a].key@);
                assert(news[b].key@ == olds[b].key@);
            }
        }
    }

    /// Sets the tombstone of the item row at the given place.
    pub fn set_item_deleted_at(&mut self, i: usize)
        requires
            old(self).wf(),
            i < old(self).items@.len(),
        ensures
            final(self).wf(),
            final(self).collections == old(self).collections,
            final(self).tags == old(self).tags,
            final(self).items@ == old(self).items@.update(
                i as int,
                Item { deleted: true, ..old(self).items@[i as int] },
            ),
    {
        let prev = self.items.remove(i);
        self.items.insert(i, prev.into_deleted());
        proof {
            let olds = old(self).items@;
            let news = self.items@;
            assert(news =~= olds.update(i as int, Item { deleted: true, ..olds[i as int] }));
            assert forall|a: int, b: int| 0 <= a < b < news.len() implies lex_lt(
                #[trigger] news[a].key@,
                #[trigger] news[b].key@,
            ) by {
                assert(news[a].key@ == olds[a].key@);
                assert(news[b].key@ == olds[b].key@);
            }
        }
    }

    /// Finds the tag row with the given name.
    pub fn find_tag(&self, name: &str) -> (r: Option<usize>)
        ensures
            match r {
                Some(i) => i < self.tags@.len() && self.tags@[i as int].tag@ == name@,
                None => !spec_tag_has(self.tags@, name@),
            },
    {
        let n = self.tags.len();
        let mut i: usize = 0;
        while i < n
            invariant
                n == self.tags@.len(),
                i <= n,
                forall|j: int| 0 <= j < i ==> #[trigger] self.tags@[j].tag@ != name@,
            decreases n - i,
        {
            if compare_str(self.tags[i].tag.as_str(), name) {
                return Some(i);
            }
            i = i + 1;
        }
        None
    }

    /// Stores a tag row: replaces the row with the same name, or inserts
    /// the row at its ordered place.
    pub fn upsert_tag(&mut self, c: TagRow)
        requires
            old(self).wf(),
        ensures
            final(self).wf(),
            final(self).collections == old(self).collections,
            final(self).items == old(self).items,
            spec_tag_has(final(self).tags@, c.tag@),
            forall|i: int|
                0 <= i < final(self).tags@.len() && #[trigger] final(self).tags@[i].tag@ == c.tag@
                    ==> final(self).tags@[i] == c,
            forall|i: int|
                0 <= i < final(self).tags@.len() && #[trigger] final(self).tags@[i].tag@ != c.tag@
                    ==> exists|j: int|
                    0 <= j < old(self).tags@.len() && old(self).tags@[j] == final(self).tags@[i],
            forall|j: int|
                0 <= j < old(self).tags@.len() && #[trigger] old(self).tags@[j].tag@ != c.tag@
                    ==> exists|i: int|
                    0 <= i < final(self).tags@.len() && final(self).tags@[i] == old(self).tags@[j],
    {
        let ghost olds = self.tags@;
        let n = self.tags.len();
        let mut p: usize = 0;
        while p < n && key_lt(self.tags[p].tag.as_str(), c.tag.as_str())
            invariant
                n == self.tags@.len(),
                self.tags@ == olds,
                p <= n,
                forall|q: int| 0 <= q < p ==> lex_lt(#[trigger] olds[q].tag@, c.tag@),
            decreases n - p,
        {
            p = p + 1;
        }
        if p < n && compare_str(self.tags[p].tag.as_str(), c.tag.as_str()) {
            let prev = self.tags.remove(p);
            self.tags.insert(p, c);
            proof {
                let news = self.tags@;
                assert(news =~= olds.update(p as int, c));
                assert forall|i: int, j: int| 0 <= i < j < news.len() implies lex_lt(
                    #[trigger] news[i].tag@,
                    #[trigger] news[j].tag@,
                ) by {
                    assert(news[i].tag@ == olds[i].tag@);
                    assert(news[j].tag@ == olds[j].tag@);
                }
                assert(spec_tag_has(news, c.tag@)) by {
                    assert(news[p as int] == c);
                }
                assert forall|i: int|
                    0 <= i < news.len() && #[trigger] news[i].tag@ != c.tag@ implies exists|j: int|
                    0 <= j < olds.len() && olds[j] == news[i] by {
                    assert(news[i] == olds[i]);
                }
                assert forall|j: int|
                    0 <= j < olds.len() && #[trigger] olds[j].tag@ != c.tag@ implies exists|i: int|
                    0 <= i < news.len() && news[i] == olds[j] by {
                    assert(j != p);
                    assert(news[j] == olds[j]);
                }
            }
        } else {
            proof {
                if p < n {
                    lemma_lex_trichotomy(olds[p as int].tag@, c.tag@);
                    assert(lex_lt(c.tag@, olds[p as int].tag@));
                }
            }
            self.tags.insert(p, c);
            proof {
                let news = self.tags@;
                assert(news =~= olds.insert(p as int, c));
                assert forall|i: int, j: int| 0 <= i < j < news.len() implies lex_lt(
                    #[trigger] news[i].tag@,
                    #[trigger] news[j].tag@,
                ) by {
                    lemma_sorted_after_insert_tag(olds, c, p as int, i, j);
                }
                assert(spec_tag_has(news, c.tag@)) by {
                    assert(news[p as int] == c);
                }
                assert forall|i: int|
                    0 <= i < news.len() && #[trigger] news[i].tag@ == c.tag@ implies news[i]
                    == c by {
                    if i != p {
                        let oi = if i < p {
                            i
                        } else {
                            i - 1
                        };
                        assert(news[i] == olds[oi]);
                        if oi < p {
                            assert(lex_lt(olds[oi].tag@, c.tag@));
                            lemma_lex_asym(olds[oi].tag@, c.tag@);
                        } else {
                            assert(tags_sorted(olds));
                            if oi > p {
                                assert(lex_lt(olds[p as int].tag@, olds[oi].tag@));
                                lemma_lex_trans(c.tag@, olds[p as int].tag@, olds[oi].tag@);
                            }
                            lemma_lex_asym(c.tag@, olds[oi].tag@);
                        }
                    }
                }
                assert forall|j: int|
                    0 <= j < olds.len() && #[trigger] olds[j].tag@ != c.tag@ implies exists|i: int|
                    0 <= i < news.len() && news[i] == olds[j] by {
                    if j < p {
                        assert(news[j] == olds[j]);
                    } else {
                        assert(news[j + 1] == olds[j]);
                    }
                }
            }
        }
    }

    /// Removes the tag row with the given name, if one stands; tag
    /// tombstones from the remote remove the local row unconditionally.
    pub fn remove_tag(&mut self, name: &str)
        requires
            old(self).wf(),
        ensures
            final(self).wf(),
            final(self).collections == old(self).collections,
            final(self).items == old(self).items,
            !spec_tag_has(final(self).tags@, name@),
            spec_tag_has(old(self).tags@, name@) ==> exists|i: int|
                0 <= i < old(self).tags@.len() && #[trigger] old(self).tags@[i].tag@ == name@
                    && final(self).tags@ == old(self).tags@.remove(i),
            !spec_tag_has(old(self).tags@, name@) ==> final(self).tags == old(self).tags,
    {
        let ghost olds = self.tags@;
        match self.find_tag(name) {
            Some(i) => {
                let removed = self.tags.remove(i);
                proof {
                    let news = self.tags@;
                    assert forall|a: int, b: int| 0 <= a < b < news.len() implies lex_lt(
                        #[trigger] news[a].tag@,
                        #[trigger] news[b].tag@,
                    ) by {
                        let oa = if a < i { a } else { a + 1 };
                        let ob = if b < i { b } else { b + 1 };
                        assert(news[a] == olds[oa]);
                        assert(news[b] == olds[ob]);
                    }
                    assert forall|a: int|
                        0 <= a < news.len() implies #[trigger] news[a].tag@ != name@ by {
                        let oa = if a < i { a } else { a + 1 };
                        assert(news[a] == olds[oa]);
                        if oa < i {
                            assert(lex_lt(olds[oa].tag@, olds[i as int].tag@));
                            lemma_lex_asym(olds[oa].tag@, olds[i as int].tag@);
                        } else {
                            assert(lex_lt(olds[i as int].tag@, olds[oa].tag@));
                            lemma_lex_asym(olds[i as int].tag@, olds[oa].tag@);
                        }
                    }
                    assert(0 <= i < olds.len() && olds[i as int].tag@ == name@ && self.tags@
                        == olds.remove(i as int));
                }
            },
            None => {},
        }
    }

}

/// After inserting a row whose key splits position `p`, the collection
/// table stays sorted.
proof fn lemma_sorted_after_insert_collection(olds: Seq<Collection>, c: Collection, p: int, i: int, j: int)
    requires
        collections_sorted(olds),
        0 <= p <= olds.len(),
        forall|q: int| 0 <= q < p ==> lex_lt(#[trigger] olds[q].key@, c.key@),
        p < olds.len() ==> lex_lt(c.key@, olds[p].key@),
        0 <= i < j < olds.insert(p, c).len(),
    ensures
        lex_lt(olds.insert(p, c)[i].key@, olds.insert(p, c)[j].key@),
{
    let news = olds.insert(p, c);
    assert(news.len() == olds.len() + 1);
    assert(forall|q: int| 0 <= q < p ==> news[q] == olds[q]);
    assert(news[p] == c);
    assert(forall|q: int| p < q < news.len() ==> news[q] == olds[q - 1]);
    if j < p {
        assert(lex_lt(olds[i].key@, olds[j].key@));
    } else if j == p {
        assert(lex_lt(olds[i].key@, c.key@));
    } else {
        if i < p {
            if j - 1 == i {
                assert(p == j - 1 && i < p);
                assert(false);
            }
            assert(lex_lt(olds[i].key@, olds[j - 1].key@));
        } else if i == p {
            if j - 1 == p {
                assert(lex_lt(c.key@, olds[p].key@));
            } else {
                assert(lex_lt(olds[p].key@, olds[j - 1].key@));
                lemma_lex_trans(c.key@, olds[p].key@, olds[j - 1].key@);
            }
        } else {
            assert(lex_lt(olds[i - 1].key@, olds[j - 1].key@));
        }
    }
}

/// After inserting a row whose key splits position `p`, the item table
/// stays sorted.
proof fn lemma_sorted_after_insert_item(olds: Seq<Item>, c: Item, p: int, i: int, j: int)
    requires
        items_sorted(olds),
        0 <= p <= olds.len(),
        forall|q: int| 0 <= q < p ==> lex_lt(#[trigger] olds[q].key@, c.key@),
        p < olds.len() ==> lex_lt(c.key@, olds[p].key@),
        0 <= i < j < olds.insert(p, c).len(),
    ensures
        lex_lt(olds.insert(p, c)[i].key@, olds.insert(p, c)[j].key@),
{
    let news = olds.insert(p, c);
    assert(news.len() == olds.len() + 1);
    assert(forall|q: int| 0 <= q < p ==> news[q] == olds[q]);
    assert(news[p] == c);
    assert(forall|q: int| p < q < news.len() ==> news[q] == olds[q - 1]);
    if j < p {
        assert(lex_lt(olds[i].key@, olds[j].key@));
    } else if j == p {
        assert(lex_lt(olds[i].key@, c.key@));
    } else {
        if i < p {
            if j - 1 == i {
                assert(false);
            }
            assert(lex_lt(olds[i].key@, olds[j - 1].key@));
        } else if i == p {
            if j - 1 == p {
                assert(lex_lt(c.key@, olds[p].key@));
            } else {
                assert(lex_lt(olds[p].key@, olds[j - 1].key@));
                lemma_lex_trans(c.key@, olds[p].key@, olds[j - 1].key@);
            }
        } else {
            assert(lex_lt(olds[i - 1].key@, olds[j - 1].key@));
        }
    }
}

/// After inserting a row whose name splits position `p`, the tag table
/// stays sorted.
proof fn lemma_sorted_after_insert_tag(olds: Seq<TagRow>, c: TagRow, p: int, i: int, j: int)
    requires
        tags_sorted(olds),
        0 <= p <= olds.len(),
        forall|q: int| 0 <= q < p ==> lex_lt(#[trigger] olds[q].tag@, c.tag@),
        p < olds.len() ==> lex_lt(c.tag@, olds[p].tag@),
        0 <= i < j < olds.insert(p, c).len(),
    ensures
        lex_lt(olds.insert(p, c)[i].tag@, olds.insert(p, c)[j].tag@),
{
    let news = olds.insert(p, c);
    assert(news.len() == olds.len() + 1);
    assert(forall|q: int| 0 <= q < p ==> news[q] == olds[q]);
    assert(news[p] == c);
    assert(forall|q: int| p < q < news.len() ==> news[q] == olds[q - 1]);
    if j < p {
        assert(lex_lt(olds[i].tag@, olds[j].tag@));
    } else if j == p {
        assert(lex_lt(olds[i].tag@, c.tag@));
    } else {
        if i < p {
            if j - 1 == i {
                assert(false);
            }
            assert(lex_lt(olds[i].tag@, olds[j - 1].tag@));
        } else if i == p {
            if j - 1 == p {
                assert(lex_lt(c.tag@, olds[p].tag@));
            } else {
                assert(lex_lt(olds[p].tag@, olds[j - 1].tag@));
                lemma_lex_trans(c.tag@, olds[p].tag@, olds[j - 1].tag@);
            }
        } else {
            assert(lex_lt(olds[i - 1].tag@, olds[j - 1].tag@));
        }
    }
}

} // verus!
