//! Names and milestone descriptions of grants, kept beside the chain under an
//! identifier that is derived from a grant's terms: that stays the same while
//! the output that holds the grant changes. The last state seen on the chain
//! is kept too, so that a grant can be shown after its output is spent.

use crate::datum::Datum;
use crate::hexadecimal::encode_hex;
use crate::text::same_text;
use pallas_crypto::hash::Hasher;
use vstd::prelude::*;

verus! {

use crate::datum::DatumView;
use crate::hexadecimal::{hex_bytes, hex_text, is_hex, lemma_hex_round_trip};

/// What one milestone is about.
#[derive(Debug, Clone, PartialEq, Eq)]
pub struct MilestoneMeta {
    pub name: String,
    pub description: String,
}

/// What a [`MilestoneMeta`] holds.
#[verifier::ext_equal]
pub struct MilestoneMetaView {
    pub name: Seq<char>,
    pub description: Seq<char>,
}

impl View for MilestoneMeta {
    type V = MilestoneMetaView;

    open spec fn view(&self) -> MilestoneMetaView {
        MilestoneMetaView { name: self.name@, description: self.description@ }
    }
}

/// A grant as it was last seen on the chain.
#[derive(Debug, Clone, PartialEq, Eq)]
pub struct GrantSnapshot {
    pub tx_hash: String,
    pub output_index: u64,
    pub lovelace: u64,
    pub datum: Datum,
}

/// What a [`GrantSnapshot`] holds.
#[verifier::ext_equal]
pub struct GrantSnapshotView {
    pub tx_hash: Seq<char>,
    pub output_index: u64,
    pub lovelace: u64,
    pub datum: DatumView,
}

impl View for GrantSnapshot {
    type V = GrantSnapshotView;

    open spec fn view(&self) -> GrantSnapshotView {
        GrantSnapshotView {
            tx_hash: self.tx_hash@,
            output_index: self.output_index,
            lovelace: self.lovelace,
            datum: self.datum@,
        }
    }
}

/// What is kept of a grant.
#[derive(Debug, Clone, PartialEq, Eq)]
pub struct GrantMeta {
    pub name: String,
    pub milestones: Vec<MilestoneMeta>,
    pub snapshot: Option<GrantSnapshot>,
}

/// What a [`GrantMeta`] holds.
#[verifier::ext_equal]
pub struct GrantMetaView {
    pub name: Seq<char>,
    pub milestones: Seq<MilestoneMetaView>,
    pub snapshot: Option<GrantSnapshotView>,
}

/// What some milestones hold.
pub open spec fn milestone_views(milestones: Seq<MilestoneMeta>) -> Seq<MilestoneMetaView> {
    Seq::new(milestones.len(), |i: int| milestones[i]@)
}

/// What a snapshot holds, where there is one.
pub open spec fn snapshot_view(snapshot: Option<GrantSnapshot>) -> Option<GrantSnapshotView> {
    match snapshot {
        Some(seen) => Some(seen@),
        None => None,
    }
}

impl View for GrantMeta {
    type V = GrantMetaView;

    open spec fn view(&self) -> GrantMetaView {
        GrantMetaView {
            name: self.name@,
            milestones: milestone_views(self.milestones@),
            snapshot: snapshot_view(self.snapshot),
        }
    }
}

impl GrantSnapshotView {
    /// Whether this is the output that a hash and an index name.
    pub open spec fn is_at(self, tx_hash: Seq<char>, output_index: u64) -> bool {
        self.tx_hash == tx_hash && self.output_index == output_index
    }

    /// Whether every tranche was released.
    pub open spec fn is_complete(self) -> bool {
        self.datum.released_count == self.datum.tranche_bps.len()
    }
}

impl GrantMetaView {
    /// Whether the grant was seen on the chain.
    pub open spec fn confirmed(self) -> bool {
        self.snapshot is Some
    }

    /// Whether every tranche was released when the grant was last seen.
    pub open spec fn is_complete(self) -> bool {
        self.snapshot matches Some(seen) && seen.is_complete()
    }
}

impl MilestoneMeta {
    fn copied(&self) -> (copy: MilestoneMeta)
        ensures
            copy@ == self@,
    {
        MilestoneMeta { name: self.name.clone(), description: self.description.clone() }
    }
}

impl GrantSnapshot {
    /// Another snapshot that holds the same.
    pub(crate) fn copied(&self) -> (copy: GrantSnapshot)
        ensures
            copy@ == self@,
    {
        GrantSnapshot {
            tx_hash: self.tx_hash.clone(),
            output_index: self.output_index,
            lovelace: self.lovelace,
            datum: self.datum.copied(),
        }
    }

    /// Whether this is the output that a hash and an index name.
    fn at(&self, tx_hash: &str, output_index: u64) -> (is: bool)
        ensures
            is == self@.is_at(tx_hash@, output_index),
    {
        self.output_index == output_index && same_text(&self.tx_hash, tx_hash)
    }

    /// Whether every tranche was released.
    fn complete(&self) -> (is: bool)
        ensures
            is == self@.is_complete(),
    {
        self.datum.released_count >= 0 && self.datum.released_count as u64 == self.datum.tranche_bps.len() as u64
    }
}

/// Other milestones that hold the same.
pub(crate) fn copied_milestones(milestones: &Vec<MilestoneMeta>) -> (copy: Vec<MilestoneMeta>)
    ensures
        milestone_views(copy@) == milestone_views(milestones@),
{
    let mut copy: Vec<MilestoneMeta> = Vec::new();
    for i in 0..milestones.len()
        invariant
            copy@.len() == i,
            forall|j: int| 0 <= j < i ==> (#[trigger] copy@[j])@ == milestones@[j]@,
    {
        copy.push(milestones[i].copied());
    }
    assert(milestone_views(copy@) =~= milestone_views(milestones@));
    copy
}

impl GrantMeta {
    /// Other metadata that hold the same.
    pub(crate) fn copied(&self) -> (copy: GrantMeta)
        ensures
            copy@ == self@,
    {
        GrantMeta {
            name: self.name.clone(),
            milestones: copied_milestones(&self.milestones),
            snapshot: match &self.snapshot {
                Some(snapshot) => Some(snapshot.copied()),
                None => None,
            },
        }
    }

    fn complete(&self) -> (is: bool)
        ensures
            is == self@.is_complete(),
    {
        match &self.snapshot {
            Some(snapshot) => snapshot.complete(),
            None => false,
        }
    }
}

/// The digest that Blake2b of 256 bits gives.
pub uninterp spec fn blake2b_256(bytes: Seq<u8>) -> Seq<u8>;

/// `Hasher::<256>::hash`.
#[verifier::external_body]
fn hash_bytes(bytes: &[u8]) -> (digest: [u8; 32])
    ensures
        digest@ == blake2b_256(bytes@),
{
    *Hasher::<256>::hash(bytes)
}

/// A 64-bit integer as the number that its two's complement is.
pub open spec fn twos_complement(value: i64) -> int {
    if value < 0 {
        value + 0x1_0000_0000_0000_0000
    } else {
        value as int
    }
}

/// The last `count` bytes of a number, the most significant first.
pub open spec fn number_bytes(number: int, count: nat) -> Seq<u8>
    decreases count,
{
    if count == 0 {
        seq![]
    } else {
        number_bytes(number / 0x100, (count - 1) as nat).push((number % 0x100) as u8)
    }
}

/// The eight bytes of an integer in two's complement, the most significant
/// first.
pub open spec fn be_bytes(value: i64) -> Seq<u8> {
    number_bytes(twos_complement(value), 8)
}

/// The bytes of some integers, one after the other.
pub open spec fn all_be_bytes(values: Seq<i64>) -> Seq<u8>
    decreases values.len(),
{
    if values.len() == 0 {
        seq![]
    } else {
        all_be_bytes(values.drop_last()) + be_bytes(values.last())
    }
}

/// The terms of a grant as bytes.
pub open spec fn grant_terms(reviewer: Seq<u8>, proposer: Seq<u8>, total_locked: i64, tranche_bps: Seq<i64>) -> Seq<u8> {
    reviewer + proposer + be_bytes(total_locked) + all_be_bytes(tranche_bps)
}

/// The identifier of a grant with the given terms.
pub open spec fn id_of_terms(reviewer: Seq<u8>, proposer: Seq<u8>, total_locked: i64, tranche_bps: Seq<i64>) -> Seq<char> {
    hex_text(blake2b_256(grant_terms(reviewer, proposer, total_locked, tranche_bps)))
}

impl DatumView {
    /// The identifier of the grant that this is a state of.
    pub open spec fn grant_id(self) -> Seq<char> {
        id_of_terms(self.reviewer, self.proposer, self.total_locked, self.tranche_bps)
    }
}

/// Adds the last `count` bytes of a number.
fn push_number_bytes(bytes: &mut Vec<u8>, number: u64, count: u64)
    ensures
        final(bytes)@ == old(bytes)@ + number_bytes(number as int, count as nat),
    decreases count,
{
    if count > 0 {
        push_number_bytes(bytes, number / 0x100, count - 1);
        bytes.push((number % 0x100) as u8);
    }
    assert(bytes@ =~= old(bytes)@ + number_bytes(number as int, count as nat));
}

/// Adds the eight bytes of an integer.
fn push_be_bytes(bytes: &mut Vec<u8>, value: i64)
    ensures
        final(bytes)@ == old(bytes)@ + be_bytes(value),
{
    assert(value < 0 ==> value as u64 == value + 0x1_0000_0000_0000_0000) by (bit_vector);
    assert(value >= 0 ==> value as u64 == value) by (bit_vector);
    push_number_bytes(bytes, value as u64, 8);
}

/// Adds some bytes.
fn push_bytes(bytes: &mut Vec<u8>, more: &[u8])
    ensures
        final(bytes)@ == old(bytes)@ + more@,
{
    bytes.extend_from_slice(more);
    assert(bytes@ =~= old(bytes)@ + more@);
}

/// The identifier of a grant: a digest of its terms.
pub fn grant_id(reviewer: &[u8; 28], proposer: &[u8; 28], total_locked: i64, tranche_bps: &[i64]) -> (id: String)
    ensures
        id@ == id_of_terms(reviewer@, proposer@, total_locked, tranche_bps@),
        id@.len() == 64,
{
    let mut terms: Vec<u8> = Vec::new();
    push_bytes(&mut terms, reviewer);
    push_bytes(&mut terms, proposer);
    push_be_bytes(&mut terms, total_locked);
    let ghost head = terms@;
    assert(head =~= reviewer@ + proposer@ + be_bytes(total_locked));
    for i in 0..tranche_bps.len()
        invariant
            terms@ == head + all_be_bytes(tranche_bps@.take(i as int)),
    {
        push_be_bytes(&mut terms, tranche_bps[i]);
        assert(tranche_bps@.take(i + 1).drop_last() =~= tranche_bps@.take(i as int));
        assert(terms@ =~= head + all_be_bytes(tranche_bps@.take(i + 1)));
    }
    assert(tranche_bps@.take(tranche_bps@.len() as int) =~= tranche_bps@);
    let digest = hash_bytes(terms.as_slice());
    encode_hex(&digest)
}

impl Datum {
    /// The identifier of the grant that this is a state of.
    pub fn grant_id(&self) -> (id: String)
        ensures
            id@ == self@.grant_id(),
            id@.len() == 64,
    {
        grant_id(&self.reviewer, &self.proposer, self.total_locked, self.tranche_bps.as_slice())
    }
}

/// What some entries of a store hold.
pub open spec fn entry_views(entries: Seq<(String, GrantMeta)>) -> Seq<(Seq<char>, GrantMetaView)> {
    Seq::new(entries.len(), |i: int| (entries[i].0@, entries[i].1@))
}

/// The map that some entries make up: of two under one identifier the later
/// counts.
pub open spec fn entry_map(entries: Seq<(Seq<char>, GrantMetaView)>) -> Map<Seq<char>, GrantMetaView>
    decreases entries.len(),
{
    if entries.len() == 0 {
        Map::empty()
    } else {
        entry_map(entries.drop_last()).insert(entries.last().0, entries.last().1)
    }
}

/// Whether no two entries have one identifier.
pub open spec fn ids_distinct(entries: Seq<(Seq<char>, GrantMetaView)>) -> bool {
    forall|i: int, j: int|
        0 <= i < j < entries.len() ==> (#[trigger] entries[i]).0 != (#[trigger] entries[j]).0
}

/// The entries of grants of which every tranche was released.
pub open spec fn complete_entries(entries: Map<Seq<char>, GrantMetaView>) -> Map<Seq<char>, GrantMetaView> {
    Map::new(
        |id: Seq<char>| entries.contains_key(id) && entries[id].is_complete(),
        |id: Seq<char>| entries[id],
    )
}

/// Whether the metadata under an identifier can no longer change: the grant
/// was seen on the chain.
pub open spec fn is_locked(entries: Map<Seq<char>, GrantMetaView>, id: Seq<char>) -> bool {
    entries.contains_key(id) && entries[id].confirmed()
}

/// The metadata after a name and milestones are set.
pub open spec fn with_meta(
    entries: Map<Seq<char>, GrantMetaView>,
    id: Seq<char>,
    name: Seq<char>,
    milestones: Seq<MilestoneMetaView>,
) -> Map<Seq<char>, GrantMetaView> {
    if is_locked(entries, id) {
        entries
    } else {
        entries.insert(id, GrantMetaView { name, milestones, snapshot: None })
    }
}

/// The metadata after a grant is seen on the chain.
pub open spec fn with_snapshot(
    entries: Map<Seq<char>, GrantMetaView>,
    id: Seq<char>,
    snapshot: GrantSnapshotView,
) -> Map<Seq<char>, GrantMetaView> {
    if entries.contains_key(id) {
        entries.insert(id, GrantMetaView { snapshot: Some(snapshot), ..entries[id] })
    } else {
        entries
    }
}

/// An identifier is in the map exactly where some entry has it, and the map
/// then holds what that entry holds.
pub(crate) proof fn lemma_entry_map(entries: Seq<(Seq<char>, GrantMetaView)>)
    requires
        ids_distinct(entries),
    ensures
        forall|id: Seq<char>| #[trigger]
            entry_map(entries).contains_key(id) <==> exists|i: int|
                0 <= i < entries.len() && (#[trigger] entries[i]).0 == id,
        forall|i: int| 0 <= i < entries.len() ==> entry_map(entries)[(#[trigger] entries[i]).0] == entries[i].1,
    decreases entries.len(),
{
    if entries.len() > 0 {
        let before = entries.drop_last();
        assert forall|i: int, j: int| 0 <= i < j < before.len() implies (#[trigger] before[i]).0 != (
        #[trigger] before[j]).0 by {
            assert(before[i] == entries[i] && before[j] == entries[j]);
        }
        lemma_entry_map(before);
        assert forall|id: Seq<char>| #[trigger] entry_map(entries).contains_key(id) <==> exists|i: int|
            0 <= i < entries.len() && (#[trigger] entries[i]).0 == id by {
            if entry_map(before).contains_key(id) {
                let i = choose|i: int| 0 <= i < before.len() && (#[trigger] before[i]).0 == id;
                assert(entries[i].0 == id);
            }
            if exists|i: int| 0 <= i < entries.len() && (#[trigger] entries[i]).0 == id {
                let i = choose|i: int| 0 <= i < entries.len() && (#[trigger] entries[i]).0 == id;
                if i < before.len() {
                    assert(before[i].0 == id);
                }
            }
        }
        assert forall|i: int| 0 <= i < entries.len() implies entry_map(entries)[(#[trigger] entries[i]).0]
            == entries[i].1 by {
            if i < before.len() {
                assert(before[i] == entries[i]);
                assert(entry_map(before)[before[i].0] == before[i].1);
            }
        }
    }
}

/// Metadata of grants by their identifiers.
pub struct GrantMetaStore {
    entries: Vec<(String, GrantMeta)>,
}

impl View for GrantMetaStore {
    type V = Map<Seq<char>, GrantMetaView>;

    closed spec fn view(&self) -> Map<Seq<char>, GrantMetaView> {
        entry_map(entry_views(self.entries@))
    }
}

impl GrantMetaStore {
    /// Whether no identifier occurs twice.
    pub closed spec fn wf(self) -> bool {
        ids_distinct(entry_views(self.entries@))
    }

    /// An empty store.
    pub fn new() -> (store: GrantMetaStore)
        ensures
            store.wf(),
            store@ == Map::<Seq<char>, GrantMetaView>::empty(),
    {
        GrantMetaStore { entries: Vec::new() }
    }

    /// The place of an identifier's entry.
    fn position(&self, id: &str) -> (place: Option<usize>)
        requires
            self.wf(),
        ensures
            match place {
                Some(i) => i < self.entries@.len() && self.entries@[i as int].0@ == id@ && self@.contains_key(id@)
                    && self@[id@] == self.entries@[i as int].1@,
                None => !self@.contains_key(id@),
            },
    {
        let ghost views = entry_views(self.entries@);
        proof {
            lemma_entry_map(views);
        }
        for i in 0..self.entries.len()
            invariant
                views == entry_views(self.entries@),
                forall|j: int| 0 <= j < i ==> (#[trigger] views[j]).0 != id@,
                forall|k: Seq<char>| #[trigger]
                    entry_map(views).contains_key(k) <==> exists|j: int|
                        0 <= j < views.len() && (#[trigger] views[j]).0 == k,
                forall|j: int| 0 <= j < views.len() ==> entry_map(views)[(#[trigger] views[j]).0] == views[j].1,
        {
            if same_text(&self.entries[i].0, id) {
                assert(views[i as int].0 == id@);
                return Some(i);
            }
        }
        None
    }

    /// Puts metadata under an identifier, in place of what was there.
    fn put(&mut self, id: String, meta: GrantMeta)
        requires
            old(self).wf(),
        ensures
            final(self).wf(),
            final(self)@ == old(self)@.insert(id@, meta@),
    {
        let ghost before = entry_views(self.entries@);
        proof {
            lemma_entry_map(before);
        }
        match self.position(&id) {
            Some(i) => {
                self.entries[i] = (id, meta);
                let ghost after = entry_views(self.entries@);
                assert(after =~= before.update(i as int, (id@, meta@)));
                proof {
                    assert forall|j: int, k: int| 0 <= j < k < after.len() implies (#[trigger] after[j]).0 != (
                    #[trigger] after[k]).0 by {
                        assert(after[j].0 == before[j].0 && after[k].0 == before[k].0);
                    }
                    lemma_entry_map(after);
                    assert forall|k: Seq<char>| #[trigger]
                        entry_map(after).contains_key(k) <==> entry_map(before).insert(id@, meta@).contains_key(k) by {
                        if entry_map(after).contains_key(k) {
                            let j = choose|j: int| 0 <= j < after.len() && (#[trigger] after[j]).0 == k;
                            assert(before[j].0 == k);
                        }
                        if entry_map(before).contains_key(k) {
                            let j = choose|j: int| 0 <= j < before.len() && (#[trigger] before[j]).0 == k;
                            assert(after[j].0 == k);
                        }
                    }
                    assert forall|k: Seq<char>| #[trigger] entry_map(after).contains_key(k) implies entry_map(after)[k]
                        == entry_map(before).insert(id@, meta@)[k] by {
                        let j = choose|j: int| 0 <= j < after.len() && (#[trigger] after[j]).0 == k;
                        assert(entry_map(after)[after[j].0] == after[j].1);
                        assert(entry_map(before)[before[j].0] == before[j].1);
                        if k == id@ {
                            assert(before[i as int].0 == before[j].0);
                        }
                    }
                    assert(entry_map(after) =~= entry_map(before).insert(id@, meta@));
                }
            },
            None => {
                self.entries.push((id, meta));
                let ghost after = entry_views(self.entries@);
                assert(after =~= before.push((id@, meta@)));
                assert(after.drop_last() =~= before);
                assert forall|i: int, j: int| 0 <= i < j < after.len() implies (#[trigger] after[i]).0 != (
                #[trigger] after[j]).0 by {
                    assert(before[i] == after[i]);
                    if j == before.len() {
                        assert(before[i].0 != id@);
                    } else {
                        assert(before[j] == after[j]);
                    }
                }
            },
        }
    }

    /// The store of some entries: of two under one identifier the later
    /// counts.
    pub fn from_entries(entries: Vec<(String, GrantMeta)>) -> (store: GrantMetaStore)
        ensures
            store.wf(),
            store@ == entry_map(entry_views(entries@)),
    {
        let mut store = GrantMetaStore::new();
        for i in 0..entries.len()
            invariant
                store.wf(),
                store@ == entry_map(entry_views(entries@).take(i as int)),
        {
            let id = entries[i].0.clone();
            let meta = entries[i].1.copied();
            store.put(id, meta);
            assert(entry_views(entries@).take(i + 1).drop_last() =~= entry_views(entries@).take(i as int));
        }
        assert(entry_views(entries@).take(entries@.len() as int) =~= entry_views(entries@));
        store
    }

    /// All entries, each identifier once.
    pub fn entries(&self) -> (entries: Vec<(String, GrantMeta)>)
        requires
            self.wf(),
        ensures
            ids_distinct(entry_views(entries@)),
            entry_map(entry_views(entries@)) == self@,
    {
        let mut entries: Vec<(String, GrantMeta)> = Vec::new();
        for i in 0..self.entries.len()
            invariant
                entries@.len() == i,
                forall|j: int|
                    0 <= j < i ==> (#[trigger] entries@[j]).0@ == self.entries@[j].0@ && entries@[j].1@
                        == self.entries@[j].1@,
        {
            entries.push((self.entries[i].0.clone(), self.entries[i].1.copied()));
        }
        assert(entry_views(entries@) =~= entry_views(self.entries@));
        entries
    }

    /// The metadata of a grant.
    pub fn get(&self, grant_id: &str) -> (meta: Option<GrantMeta>)
        requires
            self.wf(),
        ensures
            match meta {
                Some(found) => self@.contains_key(grant_id@) && found@ == self@[grant_id@],
                None => !self@.contains_key(grant_id@),
            },
    {
        match self.position(grant_id) {
            Some(i) => Some(self.entries[i].1.copied()),
            None => None,
        }
    }

    /// Sets a grant's name and milestones, and says whether it did. Once the
    /// grant was seen on the chain they stay as they are: whoever asks is not
    /// asked who they are.
    pub fn set_meta(&mut self, grant_id: String, name: String, milestones: Vec<MilestoneMeta>) -> (stored: bool)
        requires
            old(self).wf(),
        ensures
            final(self).wf(),
            stored == !is_locked(old(self)@, grant_id@),
            final(self)@ == with_meta(old(self)@, grant_id@, name@, milestone_views(milestones@)),
    {
        match self.position(&grant_id) {
            Some(i) => {
                if self.entries[i].1.snapshot.is_some() {
                    return false;
                }
            },
            None => {},
        }
        self.put(grant_id, GrantMeta { name, milestones, snapshot: None });
        true
    }

    /// Keeps what was seen of a grant on the chain, and says whether there was
    /// metadata to keep it with.
    pub fn record_snapshot(&mut self, grant_id: &str, snapshot: GrantSnapshot) -> (recorded: bool)
        requires
            old(self).wf(),
        ensures
            final(self).wf(),
            recorded == old(self)@.contains_key(grant_id@),
            final(self)@ == with_snapshot(old(self)@, grant_id@, snapshot@),
    {
        match self.position(grant_id) {
            Some(i) => {
                let id = self.entries[i].0.clone();
                let meta = GrantMeta {
                    name: self.entries[i].1.name.clone(),
                    milestones: copied_milestones(&self.entries[i].1.milestones),
                    snapshot: Some(snapshot),
                };
                self.put(id, meta);
                true
            },
            None => false,
        }
    }

    /// What was last seen of the grant in some output.
    pub fn snapshot_by_outref(&self, tx_hash: &str, output_index: u64) -> (snapshot: Option<GrantSnapshot>)
        requires
            self.wf(),
        ensures
            match snapshot {
                Some(found) => found@.is_at(tx_hash@, output_index) && exists|id: Seq<char>| #[trigger]
                    self@.contains_key(id) && self@[id].snapshot == Some(found@),
                None => forall|id: Seq<char>| #[trigger]
                    self@.contains_key(id) ==> !(self@[id].snapshot matches Some(seen) && seen.is_at(
                        tx_hash@,
                        output_index,
                    )),
            },
    {
        let ghost views = entry_views(self.entries@);
        proof {
            lemma_entry_map(views);
        }
        for i in 0..self.entries.len()
            invariant
                views == entry_views(self.entries@),
                self@ == entry_map(views),
                forall|k: Seq<char>| #[trigger]
                    entry_map(views).contains_key(k) <==> exists|j: int|
                        0 <= j < views.len() && (#[trigger] views[j]).0 == k,
                forall|j: int| 0 <= j < views.len() ==> entry_map(views)[(#[trigger] views[j]).0] == views[j].1,
                forall|j: int|
                    0 <= j < i ==> !((#[trigger] views[j]).1.snapshot matches Some(seen) && seen.is_at(
                        tx_hash@,
                        output_index,
                    )),
        {
            match &self.entries[i].1.snapshot {
                Some(snapshot) => {
                    if snapshot.at(tx_hash, output_index) {
                        let found = snapshot.copied();
                        assert(views[i as int].1.snapshot == Some(found@));
                        assert(self@.contains_key(views[i as int].0));
                        return Some(found);
                    }
                },
                None => {},
            }
        }
        None
    }

    /// The grants of which every tranche was released, each once.
    pub fn completed(&self) -> (complete: Vec<(String, GrantMeta)>)
        requires
            self.wf(),
        ensures
            ids_distinct(entry_views(complete@)),
            entry_map(entry_views(complete@)) == complete_entries(self@),
    {
        let mut complete: Vec<(String, GrantMeta)> = Vec::new();
        let ghost views = entry_views(self.entries@);
        assert(complete_entries(entry_map(views.take(0))) =~= Map::empty());
        for i in 0..self.entries.len()
            invariant
                views == entry_views(self.entries@),
                ids_distinct(views),
                ids_distinct(entry_views(complete@)),
                entry_map(entry_views(complete@)) == complete_entries(entry_map(views.take(i as int))),
                forall|j: int|
                    0 <= j < complete@.len() ==> exists|k: int|
                        0 <= k < i && (#[trigger] views[k]).0 == (#[trigger] entry_views(complete@)[j]).0,
        {
            assert(views.take(i + 1).drop_last() =~= views.take(i as int));
            let ghost before = entry_views(complete@);
            let ghost known = entry_map(views.take(i as int));
            let ghost entry = views[i as int];
            proof {
                lemma_entry_map(views.take(i as int));
                assert(!known.contains_key(entry.0));
            }
            if self.entries[i].1.complete() {
                complete.push((self.entries[i].0.clone(), self.entries[i].1.copied()));
                let ghost after = entry_views(complete@);
                assert(after =~= before.push(entry));
                assert(after.drop_last() =~= before);
                assert(complete_entries(known.insert(entry.0, entry.1)) =~= complete_entries(known).insert(
                    entry.0,
                    entry.1,
                ));
                assert forall|j: int, k: int| 0 <= j < k < after.len() implies (#[trigger] after[j]).0 != (
                #[trigger] after[k]).0 by {
                    assert(before[j] == after[j]);
                    if k < before.len() {
                        assert(before[k] == after[k]);
                    }
                }
                assert forall|j: int| 0 <= j < complete@.len() implies exists|k: int|
                    0 <= k < i + 1 && (#[trigger] views[k]).0 == (#[trigger] entry_views(complete@)[j]).0 by {
                    if j < before.len() {
                        assert(before[j] == after[j]);
                    } else {
                        assert(views[i as int].0 == after[j].0);
                    }
                }
            } else {
                assert(complete_entries(known.insert(entry.0, entry.1)) =~= complete_entries(known));
            }
        }
        assert(views.take(self.entries@.len() as int) =~= views);
        complete
    }
}

/// Whether `count` bytes hold a number.
spec fn fits(number: int, count: nat) -> bool
    decreases count,
{
    if count == 0 {
        number == 0
    } else {
        fits(number / 0x100, (count - 1) as nat)
    }
}

/// The bytes of a number tell it.
proof fn lemma_number_bytes_differ(one: int, other: int, count: nat)
    requires
        fits(one, count),
        fits(other, count),
        number_bytes(one, count) == number_bytes(other, count),
    ensures
        one == other,
    decreases count,
{
    if count > 0 {
        let less = (count - 1) as nat;
        assert(number_bytes(one, count).drop_last() =~= number_bytes(one / 0x100, less));
        assert(number_bytes(other, count).drop_last() =~= number_bytes(other / 0x100, less));
        assert(number_bytes(one, count).last() == (one % 0x100) as u8);
        assert(number_bytes(other, count).last() == (other % 0x100) as u8);
        lemma_number_bytes_differ(one / 0x100, other / 0x100, less);
    }
}

/// There are as many bytes as were asked for.
proof fn lemma_number_bytes_len(number: int, count: nat)
    ensures
        number_bytes(number, count).len() == count,
    decreases count,
{
    if count > 0 {
        lemma_number_bytes_len(number / 0x100, (count - 1) as nat);
    }
}

/// The bytes of an integer are eight, and tell it.
proof fn lemma_be_bytes_differ(one: i64, other: i64)
    ensures
        be_bytes(one).len() == 8,
        be_bytes(one) == be_bytes(other) ==> one == other,
{
    let a = twos_complement(one);
    let b = twos_complement(other);
    lemma_number_bytes_len(a, 8);
    reveal_with_fuel(fits, 9);
    assert(fits(a, 8));
    assert(fits(b, 8));
    if be_bytes(one) == be_bytes(other) {
        lemma_number_bytes_differ(a, b, 8);
    }
}

/// There are eight bytes for each integer.
proof fn lemma_all_be_bytes_len(values: Seq<i64>)
    ensures
        all_be_bytes(values).len() == 8 * values.len(),
    decreases values.len(),
{
    if values.len() > 0 {
        lemma_all_be_bytes_len(values.drop_last());
        lemma_be_bytes_differ(values.last(), values.last());
    }
}

/// The bytes of some integers tell them.
proof fn lemma_all_be_bytes_differ(one: Seq<i64>, other: Seq<i64>)
    requires
        all_be_bytes(one) == all_be_bytes(other),
    ensures
        one == other,
    decreases one.len(),
{
    lemma_all_be_bytes_len(one);
    lemma_all_be_bytes_len(other);
    if one.len() > 0 {
        let all = all_be_bytes(one);
        lemma_be_bytes_differ(one.last(), other.last());
        lemma_be_bytes_differ(other.last(), one.last());
        let before = all_be_bytes(one.drop_last());
        let other_before = all_be_bytes(other.drop_last());
        lemma_all_be_bytes_len(one.drop_last());
        lemma_all_be_bytes_len(other.drop_last());
        assert(before =~= all.take(before.len() as int));
        assert(other_before =~= all.take(before.len() as int));
        assert(be_bytes(one.last()) =~= all.skip(before.len() as int));
        assert(be_bytes(other.last()) =~= all.skip(before.len() as int));
        lemma_all_be_bytes_differ(one.drop_last(), other.drop_last());
        assert(one =~= one.drop_last().push(one.last()));
        assert(other =~= other.drop_last().push(other.last()));
    } else {
        assert(one =~= other);
    }
}

/// What identifies a grant tells all of its terms apart: two grants have the
/// same bytes under the digest only where funder, proposer, amount and
/// tranches are the same.
pub proof fn lemma_grant_terms_differ(one: DatumView, other: DatumView)
    requires
        one.hashes_sized(),
        other.hashes_sized(),
        grant_terms(one.reviewer, one.proposer, one.total_locked, one.tranche_bps) == grant_terms(
            other.reviewer,
            other.proposer,
            other.total_locked,
            other.tranche_bps,
        ),
    ensures
        one.reviewer == other.reviewer,
        one.proposer == other.proposer,
        one.total_locked == other.total_locked,
        one.tranche_bps == other.tranche_bps,
{
    let all = grant_terms(one.reviewer, one.proposer, one.total_locked, one.tranche_bps);
    lemma_be_bytes_differ(one.total_locked, other.total_locked);
    lemma_be_bytes_differ(other.total_locked, one.total_locked);
    assert(one.reviewer =~= all.subrange(0, 28));
    assert(other.reviewer =~= all.subrange(0, 28));
    assert(one.proposer =~= all.subrange(28, 56));
    assert(other.proposer =~= all.subrange(28, 56));
    assert(be_bytes(one.total_locked) =~= all.subrange(56, 64));
    assert(be_bytes(other.total_locked) =~= all.subrange(56, 64));
    assert(all_be_bytes(one.tranche_bps) =~= all.skip(64));
    assert(all_be_bytes(other.tranche_bps) =~= all.skip(64));
    lemma_all_be_bytes_differ(one.tranche_bps, other.tranche_bps);
}

/// A name and milestones that were accepted are read back, and nothing else
/// changes. Before a grant is seen on the chain they can be set again.
pub proof fn lemma_meta_is_read_back(
    entries: Map<Seq<char>, GrantMetaView>,
    id: Seq<char>,
    name: Seq<char>,
    milestones: Seq<MilestoneMetaView>,
)
    requires
        !is_locked(entries, id),
    ensures
        with_meta(entries, id, name, milestones).contains_key(id),
        with_meta(entries, id, name, milestones)[id] == (GrantMetaView { name, milestones, snapshot: None }),
        !is_locked(with_meta(entries, id, name, milestones), id),
        with_meta(entries, id, name, milestones).remove(id) == entries.remove(id),
{
    assert(with_meta(entries, id, name, milestones).remove(id) =~= entries.remove(id));
}

/// Once a grant was seen on the chain, its metadata cannot be set again,
/// whatever else is set or seen in between.
pub proof fn lemma_confirmed_meta_stays(
    entries: Map<Seq<char>, GrantMetaView>,
    id: Seq<char>,
    other: Seq<char>,
    name: Seq<char>,
    milestones: Seq<MilestoneMetaView>,
    snapshot: GrantSnapshotView,
)
    requires
        is_locked(entries, id),
    ensures
        with_meta(entries, id, name, milestones) == entries,
        is_locked(with_meta(entries, other, name, milestones), id),
        with_meta(entries, other, name, milestones)[id] == entries[id],
        is_locked(with_snapshot(entries, other, snapshot), id),
        with_snapshot(entries, other, snapshot)[id].name == entries[id].name,
        with_snapshot(entries, other, snapshot)[id].milestones == entries[id].milestones,
{
}

/// Seeing a grant on the chain adds no entry, locks the one that is there, and
/// changes no name and no milestone.
pub proof fn lemma_snapshot_keeps_meta(
    entries: Map<Seq<char>, GrantMetaView>,
    id: Seq<char>,
    snapshot: GrantSnapshotView,
    other: Seq<char>,
)
    ensures
        with_snapshot(entries, id, snapshot).dom() == entries.dom(),
        entries.contains_key(id) ==> is_locked(with_snapshot(entries, id, snapshot), id),
        entries.contains_key(other) ==> with_snapshot(entries, id, snapshot)[other].name == entries[other].name
            && with_snapshot(entries, id, snapshot)[other].milestones == entries[other].milestones,
        other != id && entries.contains_key(other) ==> with_snapshot(entries, id, snapshot)[other] == entries[other],
{
    assert(with_snapshot(entries, id, snapshot).dom() =~= entries.dom());
}

/// A grant that was seen with every tranche released stays among the completed
/// ones, with its name and milestones, whatever is set afterwards.
pub proof fn lemma_completed_grant_stays(
    entries: Map<Seq<char>, GrantMetaView>,
    id: Seq<char>,
    snapshot: GrantSnapshotView,
    other: Seq<char>,
    name: Seq<char>,
    milestones: Seq<MilestoneMetaView>,
)
    requires
        entries.contains_key(id),
        snapshot.is_complete(),
    ensures
        complete_entries(with_meta(with_snapshot(entries, id, snapshot), other, name, milestones)).contains_key(id),
        complete_entries(with_meta(with_snapshot(entries, id, snapshot), other, name, milestones))[id] == (
        GrantMetaView { snapshot: Some(snapshot), ..entries[id] }),
{
}

/// The bytes of an integer are eight, the most significant first: a negative
/// one is counted down from two to the power of 64.
pub proof fn lemma_be_bytes_are_big_endian(value: i64)
    ensures
        be_bytes(value).len() == 8,
        ({
            let bytes = be_bytes(value);
            0x100_0000_0000_0000 * bytes[0] + 0x1_0000_0000_0000 * bytes[1] + 0x100_0000_0000 * bytes[2] + 0x1_0000_0000
                * bytes[3] + 0x100_0000 * bytes[4] + 0x1_0000 * bytes[5] + 0x100 * bytes[6] + bytes[7] == (if value < 0 {
                0x1_0000_0000_0000_0000 + value
            } else {
                value as int
            })
        }),
{
    reveal_with_fuel(number_bytes, 9);
    let n0 = twos_complement(value);
    let n1 = n0 / 0x100;
    let n2 = n1 / 0x100;
    let n3 = n2 / 0x100;
    let n4 = n3 / 0x100;
    let n5 = n4 / 0x100;
    let n6 = n5 / 0x100;
    let n7 = n6 / 0x100;
    let bytes = be_bytes(value);
    lemma_number_bytes_len(n0, 8);
    lemma_number_bytes_len(n1, 7);
    lemma_number_bytes_len(n2, 6);
    lemma_number_bytes_len(n3, 5);
    lemma_number_bytes_len(n4, 4);
    lemma_number_bytes_len(n5, 3);
    lemma_number_bytes_len(n6, 2);
    lemma_number_bytes_len(n7, 1);
    assert(number_bytes(n7, 1) == number_bytes(n7 / 0x100, 0).push((n7 % 0x100) as u8));
    assert(number_bytes(n7, 1)[0] == n7 % 0x100);
    assert(number_bytes(n6, 2)[0] == n7 % 0x100);
    assert(bytes[7] == n0 % 0x100);
    assert(bytes[6] == n1 % 0x100);
    assert(bytes[5] == n2 % 0x100);
    assert(bytes[4] == n3 % 0x100);
    assert(bytes[3] == n4 % 0x100);
    assert(bytes[2] == n5 % 0x100);
    assert(bytes[1] == n6 % 0x100);
    assert(bytes[0] == n7 % 0x100);
}

/// The terms of a grant under the digest are the funder's key hash, the
/// proposer's, the amount, and each tranche in order, eight bytes for each
/// number, and nothing else. The identifier is hexadecimal text of the digest.
pub proof fn lemma_grant_terms_layout(datum: DatumView, i: int)
    requires
        datum.hashes_sized(),
    ensures
        exists|terms: Seq<u8>| {
            &&& #[trigger] terms.len() == 64 + 8 * datum.tranche_bps.len()
            &&& terms.subrange(0, 28) == datum.reviewer
            &&& terms.subrange(28, 56) == datum.proposer
            &&& terms.subrange(56, 64) == be_bytes(datum.total_locked)
            &&& 0 <= i < datum.tranche_bps.len() ==> terms.subrange(64 + 8 * i, 72 + 8 * i) == be_bytes(
                datum.tranche_bps[i],
            )
            &&& is_hex(datum.grant_id())
            &&& hex_bytes(datum.grant_id()) == blake2b_256(terms)
            &&& terms == grant_terms(datum.reviewer, datum.proposer, datum.total_locked, datum.tranche_bps)
        },
{
    let terms = grant_terms(datum.reviewer, datum.proposer, datum.total_locked, datum.tranche_bps);
    let tail = all_be_bytes(datum.tranche_bps);
    lemma_be_bytes_differ(datum.total_locked, datum.total_locked);
    lemma_all_be_bytes_len(datum.tranche_bps);
    lemma_hex_round_trip(blake2b_256(terms));
    assert(terms.len() == 64 + 8 * datum.tranche_bps.len());
    assert(terms.subrange(0, 28) =~= datum.reviewer);
    assert(terms.subrange(28, 56) =~= datum.proposer);
    assert(terms.subrange(56, 64) =~= be_bytes(datum.total_locked));
    if 0 <= i < datum.tranche_bps.len() {
        lemma_all_be_bytes_layout(datum.tranche_bps, i);
        assert(terms.subrange(64 + 8 * i, 72 + 8 * i) =~= tail.subrange(8 * i, 8 * i + 8));
    }
}

/// The bytes of each integer are at its place.
proof fn lemma_all_be_bytes_layout(values: Seq<i64>, i: int)
    requires
        0 <= i < values.len(),
    ensures
        all_be_bytes(values).len() == 8 * values.len(),
        all_be_bytes(values).subrange(8 * i, 8 * i + 8) == be_bytes(values[i]),
    decreases values.len(),
{
    let before = all_be_bytes(values.drop_last());
    lemma_all_be_bytes_len(values);
    lemma_all_be_bytes_len(values.drop_last());
    lemma_be_bytes_differ(values.last(), values.last());
    if i < values.len() - 1 {
        lemma_all_be_bytes_layout(values.drop_last(), i);
        assert(all_be_bytes(values).subrange(8 * i, 8 * i + 8) =~= before.subrange(8 * i, 8 * i + 8));
    } else {
        assert(all_be_bytes(values).subrange(8 * i, 8 * i + 8) =~= be_bytes(values.last()));
    }
}

/// The identifier of a grant depends on its terms alone: what is approved or
/// released, the deadline, the policy and the mark do not change it.
pub proof fn lemma_grant_id_ignores_progress(one: DatumView, other: DatumView)
    requires
        one.reviewer == other.reviewer,
        one.proposer == other.proposer,
        one.total_locked == other.total_locked,
        one.tranche_bps == other.tranche_bps,
    ensures
        one.grant_id() == other.grant_id(),
{
}

/// What is known of metadata is what their fields hold.
pub proof fn lemma_meta_shows_its_fields(meta: GrantMeta, milestone: MilestoneMeta, seen: GrantSnapshot)
    ensures
        milestone@.name == milestone.name@,
        milestone@.description == milestone.description@,
        seen@.tx_hash == seen.tx_hash@,
        seen@.output_index == seen.output_index,
        seen@.lovelace == seen.lovelace,
        seen@.datum == seen.datum@,
        meta@.name == meta.name@,
        meta@.milestones.len() == meta.milestones@.len(),
        forall|i: int| 0 <= i < meta.milestones@.len() ==> #[trigger] meta@.milestones[i] == meta.milestones@[i]@,
        match meta.snapshot {
            Some(snapshot) => meta@.snapshot == Some(snapshot@),
            None => meta@.snapshot is None,
        },
{
}

/// A snapshot is of the output with its hash and its index. It is complete
/// exactly where as many tranches are released as there are; a grant is
/// complete where it was last seen so, and confirmed where it was seen.
pub proof fn lemma_snapshots(seen: GrantSnapshot, meta: GrantMeta, tx_hash: Seq<char>, output_index: u64)
    ensures
        seen@.is_at(tx_hash, output_index) <==> seen.tx_hash@ == tx_hash && seen.output_index == output_index,
        seen@.is_complete() <==> seen.datum.released_count == seen.datum.tranche_bps@.len(),
        meta@.confirmed() <==> meta.snapshot is Some,
        meta@.is_complete() <==> (meta.snapshot matches Some(last) && last.datum.released_count
            == last.datum.tranche_bps@.len()),
{
}

/// Metadata can be set exactly until the grant was seen on the chain: then it
/// stays whatever was kept, and before it is what was set, with nothing seen.
/// No other grant's is touched.
pub proof fn lemma_meta_is_set_until_seen(
    entries: Map<Seq<char>, GrantMetaView>,
    id: Seq<char>,
    name: Seq<char>,
    milestones: Seq<MilestoneMetaView>,
    other: Seq<char>,
)
    ensures
        ({
            let after = with_meta(entries, id, name, milestones);
            let seen = entries.contains_key(id) && entries[id].snapshot is Some;
            &&& is_locked(entries, id) <==> seen
            &&& seen ==> after == entries
            &&& !seen ==> after.contains_key(id) && after[id].name == name && after[id].milestones == milestones
                && after[id].snapshot is None
            &&& other != id ==> (after.contains_key(other) <==> entries.contains_key(other))
            &&& other != id && entries.contains_key(other) ==> after[other] == entries[other]
        }),
{
}

/// What is seen of a grant with metadata is kept as the last that was seen, in
/// place of what was seen before; of a grant without, nothing is kept.
pub proof fn lemma_last_seen_is_kept(
    entries: Map<Seq<char>, GrantMetaView>,
    id: Seq<char>,
    first: GrantSnapshotView,
    second: GrantSnapshotView,
)
    ensures
        entries.contains_key(id) ==> {
            let after = with_snapshot(with_snapshot(entries, id, first), id, second);
            &&& after.contains_key(id)
            &&& after[id].snapshot == Some(second)
            &&& after[id].name == entries[id].name
            &&& after[id].milestones == entries[id].milestones
        },
        !entries.contains_key(id) ==> with_snapshot(entries, id, first) == entries,
{
}

/// The completed grants are those of which as many tranches were released as
/// there are when they were last seen, with what is kept of them.
pub proof fn lemma_complete_entries(entries: Map<Seq<char>, GrantMetaView>, id: Seq<char>)
    ensures
        complete_entries(entries).contains_key(id) <==> entries.contains_key(id) && (
        entries[id].snapshot matches Some(seen) && seen.datum.released_count == seen.datum.tranche_bps.len()),
        complete_entries(entries).contains_key(id) ==> complete_entries(entries)[id] == entries[id],
{
}

/// Of entries with one identifier the last one counts; an identifier that no
/// entry has is not in the map.
pub proof fn lemma_last_entry_counts(entries: Seq<(Seq<char>, GrantMetaView)>, id: Seq<char>)
    ensures
        forall|i: int|
            0 <= i < entries.len() && (#[trigger] entries[i]).0 == id && (forall|j: int|
                i < j < entries.len() ==> (#[trigger] entries[j]).0 != id) ==> entry_map(entries).contains_key(id)
                && entry_map(entries)[id] == entries[i].1,
        (forall|i: int| 0 <= i < entries.len() ==> (#[trigger] entries[i]).0 != id) ==> !entry_map(entries).contains_key(
            id,
        ),
    decreases entries.len(),
{
    if entries.len() > 0 {
        let before = entries.drop_last();
        lemma_last_entry_counts(before, id);
        assert forall|i: int|
            0 <= i < entries.len() && (#[trigger] entries[i]).0 == id && (forall|j: int|
                i < j < entries.len() ==> (#[trigger] entries[j]).0 != id) implies entry_map(entries).contains_key(id)
            && entry_map(entries)[id] == entries[i].1 by {
            if i < before.len() {
                assert(before[i].0 == id);
                assert forall|j: int| i < j < before.len() implies (#[trigger] before[j]).0 != id by {
                    assert(before[j] == entries[j]);
                }
                assert(entries[entries.len() - 1].0 != id);
            }
        }
        if forall|i: int| 0 <= i < entries.len() ==> (#[trigger] entries[i]).0 != id {
            assert forall|i: int| 0 <= i < before.len() implies (#[trigger] before[i]).0 != id by {
                assert(before[i] == entries[i]);
            }
            assert(entries[entries.len() - 1].0 != id);
        }
    }
}

/// What is known of some entries is, in order, what each of them holds.
pub proof fn lemma_entry_views(entries: Seq<(String, GrantMeta)>, i: int)
    ensures
        entry_views(entries).len() == entries.len(),
        0 <= i < entries.len() ==> entry_views(entries)[i].0 == entries[i].0@ && entry_views(entries)[i].1
            == entries[i].1@,
{
}

} // verus!
