//! The company database: company records kept under their keys (the stock
//! codes), in the order in which they were put in.
use vstd::prelude::*;
use crate::company_info::{opt_chars, StockInfo, StockInfoView};
use crate::text::equal_str;

verus! {

/// One record of the database: a key and the company kept under it.
#[derive(Debug)]
pub struct DatabaseEntry {
    pub key: String,
    pub stock: StockInfo,
}

/// The entries as plain values.
pub open spec fn entry_views(s: Seq<DatabaseEntry>) -> Seq<(Seq<char>, StockInfoView)> {
    s.map_values(|e: DatabaseEntry| (e.key@, e.stock@))
}

/// The entries by key: each later entry overrides an earlier one with the same key.
pub open spec fn keyed_entries(s: Seq<(Seq<char>, StockInfoView)>) -> Map<Seq<char>, StockInfoView>
    decreases s.len(),
{
    if s.len() == 0 {
        Map::empty()
    } else {
        keyed_entries(s.drop_last()).insert(s.last().0, s.last().1)
    }
}

/// No two entries share a key.
pub open spec fn keys_distinct(s: Seq<(Seq<char>, StockInfoView)>) -> bool {
    forall|i: int, j: int| 0 <= i < j < s.len() ==> s[i].0 != s[j].0
}

/// Entries with distinct keys map each key to its company.
pub proof fn lemma_keyed_entries(s: Seq<(Seq<char>, StockInfoView)>)
    requires
        keys_distinct(s),
    ensures
        forall|i: int| 0 <= i < s.len() ==> #[trigger] keyed_entries(s).contains_key(s[i].0) && keyed_entries(s)[s[i].0] == s[i].1,
        forall|k: Seq<char>| #[trigger] keyed_entries(s).contains_key(k) ==> exists|i: int| 0 <= i < s.len() && s[i].0 == k,
        keyed_entries(s).dom().len() == s.len(),
        keyed_entries(s).dom().finite(),
    decreases s.len(),
{
    if s.len() > 0 {
        let t = s.drop_last();
        assert(keys_distinct(t));
        lemma_keyed_entries(t);
        assert forall|i: int| 0 <= i < t.len() implies s.last().0 != t[i].0 by {
            assert(t[i] == s[i]);
        }
        if keyed_entries(t).contains_key(s.last().0) {
            let i = choose|i: int| 0 <= i < t.len() && t[i].0 == s.last().0;
        }
        assert forall|i: int| 0 <= i < s.len() implies #[trigger] keyed_entries(s).contains_key(s[i].0)
            && keyed_entries(s)[s[i].0] == s[i].1 by {
            if i < s.len() - 1 {
                assert(t[i] == s[i]);
            }
        }
        assert forall|k: Seq<char>| #[trigger] keyed_entries(s).contains_key(k) implies exists|i: int|
            0 <= i < s.len() && s[i].0 == k by {
            if k != s.last().0 {
                let i = choose|i: int| 0 <= i < t.len() && t[i].0 == k;
                assert(s[i] == t[i]);
            }
        }
    }
}

/// The entry at `i` is what its key maps to.
proof fn lemma_entry_at(s: Seq<(Seq<char>, StockInfoView)>, i: int)
    requires
        keys_distinct(s),
        0 <= i < s.len(),
    ensures
        keyed_entries(s).contains_key(s[i].0),
        keyed_entries(s)[s[i].0] == s[i].1,
{
    lemma_keyed_entries(s);
    assert(keyed_entries(s).contains_key(s[i].0));
}

/// A key that no entry has is not in the map.
proof fn lemma_key_absent(s: Seq<(Seq<char>, StockInfoView)>, k: Seq<char>)
    requires
        keys_distinct(s),
        forall|j: int| 0 <= j < s.len() ==> s[j].0 != k,
    ensures
        !keyed_entries(s).contains_key(k),
{
    lemma_keyed_entries(s);
    if keyed_entries(s).contains_key(k) {
        let j = choose|j: int| 0 <= j < s.len() && s[j].0 == k;
    }
}

/// Overwriting the company of an existing key keys like inserting it.
proof fn lemma_keyed_entries_update(s: Seq<(Seq<char>, StockInfoView)>, i: int, x: (Seq<char>, StockInfoView))
    requires
        keys_distinct(s),
        0 <= i < s.len(),
        s[i].0 == x.0,
    ensures
        keyed_entries(s.update(i, x)) == keyed_entries(s).insert(x.0, x.1),
        keys_distinct(s.update(i, x)),
    decreases s.len(),
{
    let u = s.update(i, x);
    if i == s.len() - 1 {
        assert(u.drop_last() =~= s.drop_last());
        assert(keyed_entries(s).insert(x.0, x.1) =~= keyed_entries(s.drop_last()).insert(x.0, x.1));
    } else {
        assert(keys_distinct(s.drop_last()));
        lemma_keyed_entries_update(s.drop_last(), i, x);
        assert(u.drop_last() =~= s.drop_last().update(i, x));
        assert(s.last().0 != x.0);
        assert(keyed_entries(u) =~= keyed_entries(s).insert(x.0, x.1));
    }
}

/// A company record with the findings of a lookup: its website, product
/// description and time of update replaced.
pub open spec fn with_findings(
    s: StockInfoView,
    website: Option<Seq<char>>,
    description: Option<Seq<char>>,
    now: Seq<char>,
) -> StockInfoView {
    StockInfoView { website, product_description: description, last_updated: Some(now), ..s }
}

/// A company record with its website and time of update replaced.
pub open spec fn with_website(s: StockInfoView, website: Option<Seq<char>>, now: Seq<char>) -> StockInfoView {
    StockInfoView { website, last_updated: Some(now), ..s }
}

/// Recording findings for a company that is held changes that company's
/// website, product description and time of update to the recorded ones, and
/// nothing else: its other fields stay, every other company stays, and the
/// database holds the same keys.
pub proof fn law_findings_read_back(
    db: Map<Seq<char>, StockInfoView>,
    key: Seq<char>,
    website: Option<Seq<char>>,
    description: Option<Seq<char>>,
    now: Seq<char>,
    other: Seq<char>,
)
    requires
        db.contains_key(key),
    ensures
        ({
            let after = db.insert(key, with_findings(db[key], website, description, now));
            &&& after.dom() == db.dom()
            &&& after[key].website == website
            &&& after[key].product_description == description
            &&& after[key].last_updated == Some(now)
            &&& after[key].code == db[key].code
            &&& after[key].name == db[key].name
            &&& after[key].market_type == db[key].market_type
            &&& after[key].industry_type == db[key].industry_type
            &&& after[key].listing_date == db[key].listing_date
            &&& after[key].international_code == db[key].international_code
            &&& other != key ==> after[other] == db[other]
        }),
{
    let after = db.insert(key, with_findings(db[key], website, description, now));
    assert(after.dom() =~= db.dom());
}

/// A company put in under a key is what is read back under that key.
pub proof fn law_insert_read_back(db: Map<Seq<char>, StockInfoView>, key: Seq<char>, stock: StockInfoView, other: Seq<char>)
    ensures
        db.insert(key, stock).contains_key(key),
        db.insert(key, stock)[key] == stock,
        other != key ==> (db.insert(key, stock).contains_key(other) <==> db.contains_key(other)),
        other != key && db.contains_key(other) ==> db.insert(key, stock)[other] == db[other],
{
}

/// The company database: companies under distinct keys, in insertion order.
pub struct CompanyDatabase {
    entries: Vec<DatabaseEntry>,
}

impl View for CompanyDatabase {
    type V = Map<Seq<char>, StockInfoView>;

    closed spec fn view(&self) -> Map<Seq<char>, StockInfoView> {
        keyed_entries(entry_views(self.entries@))
    }
}

/// The keys of the entries whose companies still lack details, in order.
pub open spec fn keys_lacking_details(s: Seq<(Seq<char>, StockInfoView)>) -> Seq<Seq<char>>
    decreases s.len(),
{
    if s.len() == 0 {
        seq![]
    } else {
        let before = keys_lacking_details(s.drop_last());
        if s.last().1.product_description is None || s.last().1.website is None {
            before.push(s.last().0)
        } else {
            before
        }
    }
}

/// The keys of the entries whose companies have no website yet, in order.
pub open spec fn keys_without_website(s: Seq<(Seq<char>, StockInfoView)>) -> Seq<Seq<char>>
    decreases s.len(),
{
    if s.len() == 0 {
        seq![]
    } else {
        let before = keys_without_website(s.drop_last());
        if s.last().1.website is None {
            before.push(s.last().0)
        } else {
            before
        }
    }
}

/// The companies of the entries that have no product description yet, in order.
pub open spec fn lacking_description(s: Seq<(Seq<char>, StockInfoView)>) -> Seq<StockInfoView>
    decreases s.len(),
{
    if s.len() == 0 {
        seq![]
    } else {
        let before = lacking_description(s.drop_last());
        if s.last().1.product_description is None {
            before.push(s.last().1)
        } else {
            before
        }
    }
}

/// The companies as plain values.
pub open spec fn stock_info_views(s: Seq<StockInfo>) -> Seq<StockInfoView> {
    s.map_values(|x: StockInfo| x@)
}

/// A copy of an entry.
fn copy_entry(e: &DatabaseEntry) -> (res: DatabaseEntry)
    ensures
        res.key@ == e.key@,
        res.stock@ == e.stock@,
{
    DatabaseEntry { key: e.key.clone(), stock: e.stock.copy() }
}

impl CompanyDatabase {
    /// No two entries share a key.
    pub closed spec fn wf(&self) -> bool {
        keys_distinct(entry_views(self.entries@))
    }

    /// The entries, in the order the database keeps them.
    pub closed spec fn entries(&self) -> Seq<(Seq<char>, StockInfoView)> {
        entry_views(self.entries@)
    }

    /// The entries hold the database's companies, each once.
    pub proof fn lemma_entries(&self)
        requires
            self.wf(),
        ensures
            keys_distinct(self.entries()),
            self@ == keyed_entries(self.entries()),
            self@.dom().len() == self.entries().len(),
            forall|i: int| 0 <= i < self.entries().len() ==> #[trigger] self@.contains_key(self.entries()[i].0)
                && self@[self.entries()[i].0] == self.entries()[i].1,
            forall|k: Seq<char>| #[trigger] self@.contains_key(k) ==> exists|i: int|
                0 <= i < self.entries().len() && self.entries()[i].0 == k,
    {
        lemma_keyed_entries(self.entries());
        assert forall|i: int| 0 <= i < self.entries().len() implies #[trigger] self@.contains_key(self.entries()[i].0)
            && self@[self.entries()[i].0] == self.entries()[i].1 by {
            lemma_entry_at(self.entries(), i);
        }
    }

    /// The entries, in the order the database keeps them.
    pub fn records(&self) -> (res: &Vec<DatabaseEntry>)
        ensures
            entry_views(res@) == self.entries(),
    {
        &self.entries
    }

    /// An empty database.
    pub fn new() -> (res: CompanyDatabase)
        ensures
            res.wf(),
            res@ == Map::<Seq<char>, StockInfoView>::empty(),
            res.entries().len() == 0,
    {
        let d = CompanyDatabase { entries: Vec::new() };
        assert(entry_views(d.entries@) =~= Seq::<(Seq<char>, StockInfoView)>::empty());
        d
    }

    /// The number of companies.
    pub fn len(&self) -> (res: usize)
        requires
            self.wf(),
        ensures
            res == self@.dom().len(),
    {
        proof {
            lemma_keyed_entries(entry_views(self.entries@));
        }
        self.entries.len()
    }

    /// Where `key` stands among the entries.
    fn position(&self, key: &str) -> (res: Option<usize>)
        requires
            self.wf(),
        ensures
            match res {
                Some(i) => i < self.entries@.len() && entry_views(self.entries@)[i as int].0 == key@,
                None => forall|j: int| 0 <= j < self.entries@.len() ==> entry_views(self.entries@)[j].0 != key@,
            },
    {
        let mut i: usize = 0;
        while i < self.entries.len()
            invariant
                i <= self.entries.len(),
                forall|j: int| 0 <= j < i ==> entry_views(self.entries@)[j].0 != key@,
            decreases self.entries.len() - i,
        {
            if equal_str(self.entries[i].key.as_str(), key) {
                return Some(i);
            }
            i = i + 1;
        }
        None
    }

    /// The company kept under `key`.
    pub fn get(&self, key: &str) -> (res: Option<&StockInfo>)
        requires
            self.wf(),
        ensures
            match res {
                Some(s) => self@.contains_key(key@) && self@[key@] == s@,
                None => !self@.contains_key(key@),
            },
    {
        proof {
            lemma_keyed_entries(entry_views(self.entries@));
        }
        match self.position(key) {
            Some(i) => {
                proof {
                    lemma_entry_at(entry_views(self.entries@), i as int);
                }
                Some(&self.entries[i].stock)
            },
            None => {
                proof {
                    lemma_key_absent(entry_views(self.entries@), key@);
                }
                None
            },
        }
    }

    /// Replaces the entry at `i` by one with the same key.
    fn overwrite(&mut self, i: usize, entry: DatabaseEntry)
        requires
            old(self).wf(),
            i < old(self).entries().len(),
            old(self).entries()[i as int].0 == entry.key@,
        ensures
            final(self).wf(),
            final(self)@ == old(self)@.insert(entry.key@, entry.stock@),
            final(self).entries() == old(self).entries().update(i as int, (entry.key@, entry.stock@)),
    {
        let ghost sv = entry_views(self.entries@);
        let ghost x = (entry.key@, entry.stock@);
        proof {
            lemma_keyed_entries_update(sv, i as int, x);
        }
        self.entries.set(i, entry);
        assert(entry_views(self.entries@) =~= sv.update(i as int, x));
    }

    /// Puts `stock` under `key`, replacing the company kept there.
    pub fn insert(&mut self, key: String, stock: StockInfo)
        requires
            old(self).wf(),
        ensures
            final(self).wf(),
            final(self)@ == old(self)@.insert(key@, stock@),
    {
        match self.position(key.as_str()) {
            Some(i) => {
                self.overwrite(i, DatabaseEntry { key, stock });
            },
            None => {
                let ghost sv = entry_views(self.entries@);
                let ghost x = (key@, stock@);
                self.entries.push(DatabaseEntry { key, stock });
                assert(entry_views(self.entries@) =~= sv.push(x));
                assert forall|a: int, b: int| 0 <= a < b < sv.len() + 1 implies sv.push(x)[a].0 != sv.push(
                    x,
                )[b].0 by {
                    assert(sv.push(x)[a] == sv[a]);
                    if b < sv.len() {
                        assert(sv.push(x)[b] == sv[b]);
                    } else {
                        assert(sv[a].0 != key@);
                    }
                }
                assert(entry_views(self.entries@).drop_last() =~= sv);
            },
        }
    }

    /// Records the findings of a lookup for the company under `key`: its
    /// website, product description and time of update. Returns whether
    /// there is such a company; where there is none, nothing changes.
    pub fn record_findings(
        &mut self,
        key: &str,
        website: Option<String>,
        description: Option<String>,
        now: String,
    ) -> (res: bool)
        requires
            old(self).wf(),
        ensures
            final(self).wf(),
            res == old(self)@.contains_key(key@),
            res ==> final(self)@ == old(self)@.insert(
                key@,
                with_findings(old(self)@[key@], opt_chars(website), opt_chars(description), now@),
            ),
            !res ==> final(self)@ == old(self)@,
    {
        proof {
            lemma_keyed_entries(entry_views(self.entries@));
        }
        match self.position(key) {
            Some(i) => {
                proof {
                    lemma_entry_at(entry_views(self.entries@), i as int);
                }
                let e = copy_entry(&self.entries[i]);
                let s = e.stock;
                let updated = StockInfo {
                    code: s.code,
                    name: s.name,
                    market_type: s.market_type,
                    industry_type: s.industry_type,
                    listing_date: s.listing_date,
                    international_code: s.international_code,
                    website,
                    product_description: description,
                    last_updated: Some(now),
                };
                let entry = DatabaseEntry { key: e.key, stock: updated };
                self.overwrite(i, entry);
                true
            },
            None => {
                proof {
                    lemma_key_absent(entry_views(self.entries@), key@);
                }
                false
            },
        }
    }

    /// Records a website found for the company under `key`, with the time of
    /// update. Returns whether there is such a company; where there is none,
    /// nothing changes.
    pub fn record_website(&mut self, key: &str, website: Option<String>, now: String) -> (res: bool)
        requires
            old(self).wf(),
        ensures
            final(self).wf(),
            res == old(self)@.contains_key(key@),
            res ==> final(self)@ == old(self)@.insert(key@, with_website(old(self)@[key@], opt_chars(website), now@)),
            !res ==> final(self)@ == old(self)@,
    {
        proof {
            lemma_keyed_entries(entry_views(self.entries@));
        }
        match self.position(key) {
            Some(i) => {
                proof {
                    lemma_entry_at(entry_views(self.entries@), i as int);
                }
                let e = copy_entry(&self.entries[i]);
                let s = e.stock;
                let updated = StockInfo {
                    code: s.code,
                    name: s.name,
                    market_type: s.market_type,
                    industry_type: s.industry_type,
                    listing_date: s.listing_date,
                    international_code: s.international_code,
                    website,
                    product_description: s.product_description,
                    last_updated: Some(now),
                };
                let entry = DatabaseEntry { key: e.key, stock: updated };
                self.overwrite(i, entry);
                true
            },
            None => {
                proof {
                    lemma_key_absent(entry_views(self.entries@), key@);
                }
                false
            },
        }
    }

    /// The keys of the companies that still lack a product description or a
    /// website, in the database's order.
    pub fn keys_needing_update(&self) -> (res: Vec<String>)
        ensures
            res@.map_values(|k: String| k@) == keys_lacking_details(self.entries()),
    {
        let mut out: Vec<String> = Vec::new();
        let mut i: usize = 0;
        while i < self.entries.len()
            invariant
                i <= self.entries.len(),
                out@.map_values(|k: String| k@) == keys_lacking_details(entry_views(self.entries@).take(i as int)),
            decreases self.entries.len() - i,
        {
            let ghost ev = entry_views(self.entries@);
            assert(ev.take(i + 1).drop_last() =~= ev.take(i as int));
            assert(ev.take(i + 1).last() == ev[i as int]);
            let ghost before = out@;
            if self.entries[i].stock.product_description.is_none() || self.entries[i].stock.website.is_none() {
                out.push(self.entries[i].key.clone());
                assert(out@.map_values(|k: String| k@) =~= before.map_values(|k: String| k@).push(ev[i as int].0));
            }
            i = i + 1;
        }
        assert(entry_views(self.entries@).take(self.entries.len() as int) =~= entry_views(self.entries@));
        out
    }

    /// The keys of the companies that have no website yet, in the database's order.
    pub fn keys_missing_website(&self) -> (res: Vec<String>)
        ensures
            res@.map_values(|k: String| k@) == keys_without_website(self.entries()),
    {
        let mut out: Vec<String> = Vec::new();
        let mut i: usize = 0;
        while i < self.entries.len()
            invariant
                i <= self.entries.len(),
                out@.map_values(|k: String| k@) == keys_without_website(entry_views(self.entries@).take(i as int)),
            decreases self.entries.len() - i,
        {
            let ghost ev = entry_views(self.entries@);
            assert(ev.take(i + 1).drop_last() =~= ev.take(i as int));
            assert(ev.take(i + 1).last() == ev[i as int]);
            let ghost before = out@;
            if self.entries[i].stock.website.is_none() {
                out.push(self.entries[i].key.clone());
                assert(out@.map_values(|k: String| k@) =~= before.map_values(|k: String| k@).push(ev[i as int].0));
            }
            i = i + 1;
        }
        assert(entry_views(self.entries@).take(self.entries.len() as int) =~= entry_views(self.entries@));
        out
    }

    /// The companies that have no product description yet, in the database's order.
    pub fn pending_descriptions(&self) -> (res: Vec<StockInfo>)
        ensures
            stock_info_views(res@) == lacking_description(self.entries()),
    {
        let mut out: Vec<StockInfo> = Vec::new();
        let mut i: usize = 0;
        while i < self.entries.len()
            invariant
                i <= self.entries.len(),
                stock_info_views(out@) == lacking_description(entry_views(self.entries@).take(i as int)),
            decreases self.entries.len() - i,
        {
            let ghost ev = entry_views(self.entries@);
            assert(ev.take(i + 1).drop_last() =~= ev.take(i as int));
            assert(ev.take(i + 1).last() == ev[i as int]);
            let ghost before = out@;
            if self.entries[i].stock.product_description.is_none() {
                let c = self.entries[i].stock.copy();
                out.push(c);
                assert(stock_info_views(out@) =~= stock_info_views(before).push(ev[i as int].1));
            }
            i = i + 1;
        }
        assert(entry_views(self.entries@).take(self.entries.len() as int) =~= entry_views(self.entries@));
        out
    }
}

/// The keys that a lookup run visits are exactly the keys of the companies
/// that lack a product description or a website, each once.
pub proof fn law_keys_needing_update(entries: Seq<(Seq<char>, StockInfoView)>)
    requires
        keys_distinct(entries),
    ensures
        forall|k: Seq<char>|
            keys_lacking_details(entries).contains(k) <==> (keyed_entries(entries).contains_key(k) && (
            keyed_entries(entries)[k].product_description is None || keyed_entries(entries)[k].website is None)),
        keys_lacking_details(entries).no_duplicates(),
    decreases entries.len(),
{
    lemma_keyed_entries(entries);
    if entries.len() > 0 {
        let before = entries.drop_last();
        assert(keys_distinct(before));
        law_keys_needing_update(before);
        lemma_keyed_entries(before);
        let last = entries.last();
        let kb = keys_lacking_details(before);
        let ka = keys_lacking_details(entries);
        assert forall|j: int| 0 <= j < before.len() implies before[j].0 != last.0 by {
            assert(before[j] == entries[j]);
        }
        assert(!keyed_entries(before).contains_key(last.0)) by {
            if keyed_entries(before).contains_key(last.0) {
                let j = choose|j: int| 0 <= j < before.len() && before[j].0 == last.0;
            }
        }
        assert(!kb.contains(last.0));
        assert forall|k: Seq<char>| ka.contains(k) <==> (keyed_entries(entries).contains_key(k) && (
            keyed_entries(entries)[k].product_description is None || keyed_entries(entries)[k].website is None)) by {
            if k == last.0 {
                if ka.contains(k) {
                    if !(last.1.product_description is None || last.1.website is None) {
                        assert(ka == kb);
                    }
                }
                if last.1.product_description is None || last.1.website is None {
                    assert(ka[kb.len() as int] == k);
                }
            } else {
                if ka.contains(k) {
                    let q = choose|q: int| 0 <= q < ka.len() && ka[q] == k;
                    if q < kb.len() {
                        assert(kb[q] == ka[q]);
                    }
                }
                if kb.contains(k) {
                    let q = choose|q: int| 0 <= q < kb.len() && kb[q] == k;
                    if last.1.product_description is None || last.1.website is None {
                        assert(ka[q] == kb[q]);
                    }
                }
            }
        }
    }
}

/// Whether the progress of a run over the database is saved after the
/// `processed`-th company: after every tenth.
pub fn is_checkpoint(processed: usize) -> (res: bool)
    ensures
        res == (processed % 10 == 0),
{
    processed % 10 == 0
}

} // verus!
