//! What the service answers: the listing of grants, the role of an address in
//! a grant, and the metadata that callers save.

use crate::address::{payment_key_hash, same_hash, AddressError};
use crate::blockfrost_client::{find_by_outref, EscrowUtxo};
use crate::config::Config;
use crate::datum::{array28, Datum, DatumJson};
use crate::grants_meta::{copied_milestones, grant_id, GrantMeta, GrantMetaStore, GrantSnapshot, MilestoneMeta};
use crate::hexadecimal::{decode_hex, encode_hex};
use crate::text::same_text;
use vstd::prelude::*;
use vstd::string::*;

verus! {

use crate::address::key_hash_of;
use crate::blockfrost_client::{grant_views, EscrowUtxoView};
use crate::config::ConfigView;
use crate::datum::{DatumJsonView, DatumView};
use crate::grants_meta::{
    complete_entries, entry_map, entry_views, id_of_terms, ids_distinct, is_locked, lemma_entry_map, milestone_views,
    with_meta, with_snapshot,
    GrantMetaView, GrantSnapshotView, MilestoneMetaView,
};
use crate::hexadecimal::{hex_bytes, hex_text, is_hex, is_hex_of, lemma_hex_round_trip, lemma_hex_text_of_bytes};
use crate::tx::create_escrow::{CreateEscrowView, CreatePlanView};
use crate::tx::BuildError;

/// The warning on a datum that names another receipt policy.
pub const POLICY_WARNING: &'static str =
    "datum's receipt_policy_id does not match this deployment's real receipt policy -- likely spoofed";

/// The warning on an identifier that several outputs share.
pub const COLLISION_WARNING: &'static str =
    "grant_id shared with another live UTxO at this address -- cannot tell which is genuine";

/// A grant as it is listed.
#[derive(Debug, Clone, PartialEq, Eq)]
pub struct GrantListing {
    pub grant_id: String,
    pub tx_hash: String,
    pub output_index: u64,
    pub lovelace: u64,
    pub datum: DatumJson,
    pub name: String,
    pub milestones: Option<Vec<MilestoneMeta>>,
    pub trusted: bool,
    pub warnings: Vec<String>,
    pub completed: bool,
}

/// What a [`GrantListing`] holds.
#[verifier::ext_equal]
pub struct GrantListingView {
    pub grant_id: Seq<char>,
    pub tx_hash: Seq<char>,
    pub output_index: u64,
    pub lovelace: u64,
    pub datum: DatumJsonView,
    pub name: Seq<char>,
    pub milestones: Option<Seq<MilestoneMetaView>>,
    pub trusted: bool,
    pub warnings: Seq<Seq<char>>,
    pub completed: bool,
}

impl View for GrantListing {
    type V = GrantListingView;

    open spec fn view(&self) -> GrantListingView {
        GrantListingView {
            grant_id: self.grant_id@,
            tx_hash: self.tx_hash@,
            output_index: self.output_index,
            lovelace: self.lovelace,
            datum: self.datum@,
            name: self.name@,
            milestones: match self.milestones {
                Some(milestones) => Some(milestone_views(milestones@)),
                None => None,
            },
            trusted: self.trusted,
            warnings: self.warnings@.map_values(|warning: String| warning@),
            completed: self.completed,
        }
    }
}

/// What some listed grants hold.
pub open spec fn listing_views(listings: Seq<GrantListing>) -> Seq<GrantListingView> {
    Seq::new(listings.len(), |i: int| listings[i]@)
}

/// The name of a grant that has none.
pub open spec fn unnamed(id: Seq<char>) -> Seq<char> {
    "Unnamed grant ("@ + id.take(8) + ")"@
}

/// A name for a grant that has none.
fn unnamed_grant(id: &str) -> (name: String)
    requires
        id@.len() >= 8,
    ensures
        name@ == unnamed(id@),
{
    let mut name = "Unnamed grant (".to_owned();
    name.append(id.substring_char(0, 8));
    name.append(")");
    assert(id@.subrange(0, 8) =~= id@.take(8));
    assert(name@ =~= unnamed(id@));
    name
}

/// Whether a datum names the receipt policy of the deployment.
pub open spec fn policy_matches(config: ConfigView, datum: DatumView) -> bool {
    hex_text(datum.receipt_policy_id) == config.receipt_policy_id
}

/// Whether another of the grants has the same identifier.
pub open spec fn shares_id(grants: Seq<EscrowUtxoView>, i: int) -> bool {
    exists|j: int|
        0 <= j < grants.len() && j != i && (#[trigger] grants[j]).datum.grant_id() == grants[i].datum.grant_id()
}

/// Whether a grant is taken to be genuine.
pub open spec fn is_trusted(config: ConfigView, grants: Seq<EscrowUtxoView>, i: int) -> bool {
    policy_matches(config, grants[i].datum) && !shares_id(grants, i)
}

/// Whether a live grant is listed: it is not to be ignored, and the script can
/// spend it.
pub open spec fn is_shown(config: ConfigView, grants: Seq<EscrowUtxoView>, i: int) -> bool {
    !config.ignores(grants[i].datum.grant_id()) && !grants[i].datum.unspendable_legacy_shape
}

/// Whether some live grant has an identifier.
pub open spec fn is_live(grants: Seq<EscrowUtxoView>, id: Seq<char>) -> bool {
    exists|i: int| 0 <= i < grants.len() && (#[trigger] grants[i]).datum.grant_id() == id
}

/// What is to be said against a grant.
pub open spec fn warnings_for(config: ConfigView, grants: Seq<EscrowUtxoView>, i: int) -> Seq<Seq<char>> {
    (if policy_matches(config, grants[i].datum) {
        seq![]
    } else {
        seq![POLICY_WARNING@]
    }) + (if shares_id(grants, i) {
        seq![COLLISION_WARNING@]
    } else {
        seq![]
    })
}

/// A live grant as it is listed: with the metadata kept for it, if it is taken
/// to be genuine.
pub open spec fn live_listing(
    config: ConfigView,
    grants: Seq<EscrowUtxoView>,
    meta: Map<Seq<char>, GrantMetaView>,
    i: int,
) -> GrantListingView {
    let grant = grants[i];
    let id = grant.datum.grant_id();
    let known = is_trusted(config, grants, i) && meta.contains_key(id);
    GrantListingView {
        grant_id: id,
        tx_hash: grant.tx_hash,
        output_index: grant.output_index,
        lovelace: grant.lovelace,
        datum: grant.datum.json(),
        name: if known {
            meta[id].name
        } else {
            unnamed(id)
        },
        milestones: if known {
            Some(meta[id].milestones)
        } else {
            None
        },
        trusted: is_trusted(config, grants, i),
        warnings: warnings_for(config, grants, i),
        completed: false,
    }
}

/// The first `count` live grants as far as they are listed, in their order.
pub open spec fn live_listings(
    config: ConfigView,
    grants: Seq<EscrowUtxoView>,
    meta: Map<Seq<char>, GrantMetaView>,
    count: nat,
) -> Seq<GrantListingView>
    decreases count,
{
    if count == 0 {
        seq![]
    } else {
        let before = live_listings(config, grants, meta, (count - 1) as nat);
        if is_shown(config, grants, count - 1) {
            before.push(live_listing(config, grants, meta, count - 1))
        } else {
            before
        }
    }
}

/// A live grant as it is remembered.
pub open spec fn snapshot_of(grant: EscrowUtxoView) -> GrantSnapshotView {
    GrantSnapshotView {
        tx_hash: grant.tx_hash,
        output_index: grant.output_index,
        lovelace: grant.lovelace,
        datum: grant.datum,
    }
}

/// The metadata after the first `count` live grants were seen: those that are
/// listed and taken to be genuine are remembered.
pub open spec fn meta_after(
    config: ConfigView,
    grants: Seq<EscrowUtxoView>,
    meta: Map<Seq<char>, GrantMetaView>,
    count: nat,
) -> Map<Seq<char>, GrantMetaView>
    decreases count,
{
    if count == 0 {
        meta
    } else {
        let before = meta_after(config, grants, meta, (count - 1) as nat);
        if is_shown(config, grants, count - 1) && is_trusted(config, grants, count - 1) {
            with_snapshot(before, grants[count - 1].datum.grant_id(), snapshot_of(grants[count - 1]))
        } else {
            before
        }
    }
}

/// The completed grants that are listed: those that are no longer live, are
/// not to be ignored, and were not of a shape that the script cannot spend.
pub open spec fn shown_completed(
    config: ConfigView,
    grants: Seq<EscrowUtxoView>,
    meta: Map<Seq<char>, GrantMetaView>,
) -> Map<Seq<char>, GrantMetaView> {
    Map::new(
        |id: Seq<char>|
            complete_entries(meta).contains_key(id) && !is_live(grants, id) && !config.ignores(id)
                && !meta[id].snapshot->0.datum.unspendable_legacy_shape,
        |id: Seq<char>| meta[id],
    )
}

/// A completed grant as it is listed: nothing is left in it.
pub open spec fn completed_listing(id: Seq<char>, meta: GrantMetaView) -> GrantListingView {
    let seen = meta.snapshot->0;
    GrantListingView {
        grant_id: id,
        tx_hash: seen.tx_hash,
        output_index: seen.output_index,
        lovelace: 0,
        datum: seen.datum.json(),
        name: meta.name,
        milestones: Some(meta.milestones),
        trusted: true,
        warnings: seq![],
        completed: true,
    }
}

/// Whether `listed` lists each of some completed grants once, in any order.
pub open spec fn lists_completed(listed: Seq<GrantListingView>, entries: Map<Seq<char>, GrantMetaView>) -> bool {
    &&& forall|k: int|
        0 <= k < listed.len() ==> entries.contains_key((#[trigger] listed[k]).grant_id) && listed[k]
            == completed_listing(listed[k].grant_id, entries[listed[k].grant_id])
    &&& forall|j: int, k: int|
        0 <= j < k < listed.len() ==> (#[trigger] listed[j]).grant_id != (#[trigger] listed[k]).grant_id
    &&& forall|id: Seq<char>| #[trigger]
        entries.contains_key(id) ==> exists|k: int| 0 <= k < listed.len() && (#[trigger] listed[k]).grant_id == id
}

/// Seeing live grants on the chain changes only what is remembered of them:
/// the entries stay, with their names and milestones, and those of other
/// grants stay as they are.
pub proof fn lemma_meta_after(
    config: ConfigView,
    grants: Seq<EscrowUtxoView>,
    meta: Map<Seq<char>, GrantMetaView>,
    count: nat,
)
    requires
        count <= grants.len(),
    ensures
        meta_after(config, grants, meta, count).dom() == meta.dom(),
        forall|id: Seq<char>| #[trigger]
            meta.contains_key(id) ==> meta_after(config, grants, meta, count)[id].name == meta[id].name
                && meta_after(config, grants, meta, count)[id].milestones == meta[id].milestones && (!is_live(
                grants,
                id,
            ) ==> meta_after(config, grants, meta, count)[id] == meta[id]),
    decreases count,
{
    if count > 0 {
        lemma_meta_after(config, grants, meta, (count - 1) as nat);
        let grant = grants[count - 1];
        assert(is_live(grants, grant.datum.grant_id()));
    }
    assert(meta_after(config, grants, meta, count).dom() =~= meta.dom());
}

/// The completed grants that are listed are the same before and after the live
/// ones were seen.
proof fn lemma_same_completed(
    config: ConfigView,
    grants: Seq<EscrowUtxoView>,
    meta: Map<Seq<char>, GrantMetaView>,
)
    ensures
        shown_completed(config, grants, meta_after(config, grants, meta, grants.len())) == shown_completed(
            config,
            grants,
            meta,
        ),
{
    lemma_meta_after(config, grants, meta, grants.len());
    let after = meta_after(config, grants, meta, grants.len());
    assert forall|id: Seq<char>| !is_live(grants, id) implies (#[trigger] after.contains_key(id) <==> meta.contains_key(
        id,
    )) && (meta.contains_key(id) ==> after[id] == meta[id]) by {
        assert(after.dom().contains(id) == meta.dom().contains(id));
    }
    assert(shown_completed(config, grants, after) =~= shown_completed(config, grants, meta));
}

/// The identifiers of some grants.
fn ids_of(grants: &[EscrowUtxo]) -> (ids: Vec<String>)
    ensures
        ids@.len() == grants@.len(),
        forall|i: int|
            0 <= i < ids@.len() ==> (#[trigger] ids@[i])@ == grants@[i]@.datum.grant_id() && ids@[i]@.len() == 64,
{
    let mut ids: Vec<String> = Vec::new();
    for i in 0..grants.len()
        invariant
            ids@.len() == i,
            forall|j: int|
                0 <= j < i ==> (#[trigger] ids@[j])@ == grants@[j]@.datum.grant_id() && ids@[j]@.len() == 64,
    {
        ids.push(grants[i].datum.grant_id());
    }
    ids
}

/// Whether another identifier is the same as the one at a place.
fn occurs_elsewhere(ids: &Vec<String>, i: usize) -> (occurs: bool)
    requires
        i < ids@.len(),
    ensures
        occurs == exists|j: int| 0 <= j < ids@.len() && j != i && (#[trigger] ids@[j])@ == ids@[i as int]@,
{
    for j in 0..ids.len()
        invariant
            i < ids@.len(),
            forall|k: int| 0 <= k < j && k != i ==> (#[trigger] ids@[k])@ != ids@[i as int]@,
    {
        if j != i && same_text(&ids[j], &ids[i]) {
            assert(ids@[j as int]@ == ids@[i as int]@);
            return true;
        }
    }
    false
}

/// Whether an identifier is among some.
fn occurs_in(ids: &Vec<String>, id: &str) -> (occurs: bool)
    ensures
        occurs == exists|j: int| 0 <= j < ids@.len() && (#[trigger] ids@[j])@ == id@,
{
    for j in 0..ids.len()
        invariant
            forall|k: int| 0 <= k < j ==> (#[trigger] ids@[k])@ != id@,
    {
        if same_text(&ids[j], id) {
            assert(ids@[j as int]@ == id@);
            return true;
        }
    }
    false
}

/// What is to be said against a grant.
fn warnings_on(policy_verified: bool, collision: bool) -> (warnings: Vec<String>)
    ensures
        warnings@.map_values(|warning: String| warning@) == (if policy_verified {
            seq![]
        } else {
            seq![POLICY_WARNING@]
        }) + (if collision {
            seq![COLLISION_WARNING@]
        } else {
            seq![]
        }),
{
    let mut warnings: Vec<String> = Vec::new();
    if !policy_verified {
        warnings.push(POLICY_WARNING.to_owned());
    }
    if collision {
        warnings.push(COLLISION_WARNING.to_owned());
    }
    assert(warnings@.map_values(|warning: String| warning@) =~= (if policy_verified {
        seq![]
    } else {
        seq![POLICY_WARNING@]
    }) + (if collision {
        seq![COLLISION_WARNING@]
    } else {
        seq![]
    }));
    warnings
}

/// A completed grant as it is listed, if it is.
fn completed_entry(config: &Config, grants: &[EscrowUtxo], ids: &Vec<String>, id: &str, meta: &GrantMeta) -> (listed: Option<GrantListing>)
    requires
        meta@.is_complete(),
        ids@.len() == grants@.len(),
        forall|i: int| 0 <= i < ids@.len() ==> (#[trigger] ids@[i])@ == grants@[i]@.datum.grant_id(),
    ensures
        listed is Some <==> !is_live(grant_views(grants@), id@) && !config@.ignores(id@)
            && !meta@.snapshot->0.datum.unspendable_legacy_shape,
        listed matches Some(listing) ==> listing@ == completed_listing(id@, meta@),
{
    let ghost live = grant_views(grants@);
    let is_live_id: bool = occurs_in(ids, id);
    proof {
        if is_live_id {
            let j = choose|j: int| 0 <= j < ids@.len() && (#[trigger] ids@[j])@ == id@;
            assert(live[j].datum.grant_id() == id@);
        }
        if is_live(live, id@) {
            let j = choose|j: int| 0 <= j < live.len() && (#[trigger] live[j]).datum.grant_id() == id@;
            assert(ids@[j]@ == id@);
        }
    }
    if is_live_id || config.ignores(id) {
        return None;
    }
    match &meta.snapshot {
        Some(snapshot) => {
            if snapshot.datum.unspendable_legacy_shape {
                return None;
            }
            let listing = GrantListing {
                grant_id: id.to_owned(),
                tx_hash: snapshot.tx_hash.clone(),
                output_index: snapshot.output_index,
                lovelace: 0,
                datum: snapshot.datum.to_json(),
                name: meta.name.clone(),
                milestones: Some(copied_milestones(&meta.milestones)),
                trusted: true,
                warnings: Vec::new(),
                completed: true,
            };
            assert(listing@ =~= completed_listing(id@, meta@));
            Some(listing)
        },
        None => None,
    }
}

/// The first `count` of some entries as far as they are listed.
spec fn listed_among(
    entries: Map<Seq<char>, GrantMetaView>,
    views: Seq<(Seq<char>, GrantMetaView)>,
    count: nat,
) -> Seq<GrantListingView>
    decreases count,
{
    if count == 0 {
        seq![]
    } else {
        let before = listed_among(entries, views, (count - 1) as nat);
        let (id, meta) = views[count - 1];
        if entries.contains_key(id) {
            before.push(completed_listing(id, meta))
        } else {
            before
        }
    }
}

/// Entries with distinct identifiers are listed once each.
proof fn lemma_listed_among(
    entries: Map<Seq<char>, GrantMetaView>,
    views: Seq<(Seq<char>, GrantMetaView)>,
    count: nat,
)
    requires
        ids_distinct(views),
        count <= views.len(),
        forall|j: int|
            0 <= j < views.len() && entries.contains_key((#[trigger] views[j]).0) ==> entries[views[j].0] == views[j].1,
    ensures
        forall|k: int|
            #![trigger listed_among(entries, views, count)[k]]
            0 <= k < listed_among(entries, views, count).len() ==> {
                let listed = listed_among(entries, views, count)[k];
                &&& entries.contains_key(listed.grant_id)
                &&& listed == completed_listing(listed.grant_id, entries[listed.grant_id])
                &&& exists|j: int| 0 <= j < count && (#[trigger] views[j]).0 == listed.grant_id
            },
        forall|j: int, k: int|
            0 <= j < k < listed_among(entries, views, count).len() ==> (#[trigger] listed_among(
                entries,
                views,
                count,
            )[j]).grant_id != (#[trigger] listed_among(entries, views, count)[k]).grant_id,
        forall|j: int|
            0 <= j < count && entries.contains_key((#[trigger] views[j]).0) ==> exists|k: int|
                0 <= k < listed_among(entries, views, count).len() && (#[trigger] listed_among(
                    entries,
                    views,
                    count,
                )[k]).grant_id == views[j].0,
    decreases count,
{
    if count > 0 {
        let before = listed_among(entries, views, (count - 1) as nat);
        let all = listed_among(entries, views, count);
        let entry = views[count - 1];
        lemma_listed_among(entries, views, (count - 1) as nat);
        assert forall|k: int| 0 <= k < before.len() implies #[trigger] all[k] == before[k] by {}
        assert forall|j: int, k: int| 0 <= j < k < all.len() implies (#[trigger] all[j]).grant_id != (
        #[trigger] all[k]).grant_id by {
            assert(all[j] == before[j]);
            let m = choose|m: int| 0 <= m < count - 1 && (#[trigger] views[m]).0 == before[j].grant_id;
            assert(views[m].0 != entry.0);
            if k < before.len() {
                assert(all[k] == before[k]);
            }
        }
        assert forall|j: int| 0 <= j < count && entries.contains_key((#[trigger] views[j]).0) implies exists|k: int|
            0 <= k < all.len() && (#[trigger] all[k]).grant_id == views[j].0 by {
            if j < count - 1 {
                let k = choose|k: int| 0 <= k < before.len() && (#[trigger] before[k]).grant_id == views[j].0;
                assert(all[k].grant_id == views[j].0);
            } else {
                assert(all[before.len() as int].grant_id == views[j].0);
            }
        }
    }
}

/// The completed grants that are listed.
fn completed_part(config: &Config, grants: &[EscrowUtxo], ids: &Vec<String>, store: &GrantMetaStore) -> (listed: Vec<GrantListing>)
    requires
        store.wf(),
        ids@.len() == grants@.len(),
        forall|i: int| 0 <= i < ids@.len() ==> (#[trigger] ids@[i])@ == grants@[i]@.datum.grant_id(),
    ensures
        lists_completed(listing_views(listed@), shown_completed(config@, grant_views(grants@), store@)),
{
    let completed = store.completed();
    let ghost entries = shown_completed(config@, grant_views(grants@), store@);
    let ghost views = entry_views(completed@);
    proof {
        lemma_entry_map(views);
        assert forall|j: int| 0 <= j < views.len() implies complete_entries(store@).contains_key(
            (#[trigger] views[j]).0,
        ) && store@[views[j].0] == views[j].1 by {
            assert(entry_map(views).contains_key(views[j].0));
            assert(entry_map(views)[views[j].0] == views[j].1);
        }
    }
    let mut listed: Vec<GrantListing> = Vec::new();
    assert(listing_views(listed@) =~= seq![]);
    for i in 0..completed.len()
        invariant
            ids@.len() == grants@.len(),
            forall|j: int| 0 <= j < ids@.len() ==> (#[trigger] ids@[j])@ == grants@[j]@.datum.grant_id(),
            entries == shown_completed(config@, grant_views(grants@), store@),
            views == entry_views(completed@),
            forall|j: int|
                0 <= j < views.len() ==> complete_entries(store@).contains_key((#[trigger] views[j]).0)
                    && store@[views[j].0] == views[j].1,
            listing_views(listed@) == listed_among(entries, views, i as nat),
    {
        let id = &completed[i].0;
        let meta = &completed[i].1;
        assert(views[i as int] == (id@, meta@));
        let ghost before = listing_views(listed@);
        match completed_entry(config, grants, ids, id, meta) {
            Some(listing) => {
                listed.push(listing);
                assert(listing_views(listed@) =~= before.push(listing@));
            },
            None => {},
        }
    }
    proof {
        lemma_listed_among(entries, views, views.len());
        assert forall|id: Seq<char>| #[trigger] entries.contains_key(id) implies exists|k: int|
            0 <= k < listing_views(listed@).len() && (#[trigger] listing_views(listed@)[k]).grant_id == id by {
            assert(entry_map(views).contains_key(id));
            let j = choose|j: int| 0 <= j < views.len() && (#[trigger] views[j]).0 == id;
            assert(entries.contains_key(views[j].0));
        }
    }
    listed
}

/// Whether seeing a live grant changes what is remembered.
pub open spec fn is_remembered(
    config: ConfigView,
    grants: Seq<EscrowUtxoView>,
    meta: Map<Seq<char>, GrantMetaView>,
    i: int,
) -> bool {
    is_shown(config, grants, i) && is_trusted(config, grants, i) && meta.contains_key(grants[i].datum.grant_id())
}

/// The listing of grants: the live ones in their order, and the completed ones
/// after them. Those that are taken to be genuine are remembered on the way;
/// the second result says whether that changed anything.
pub fn list_grants(config: &Config, grants: &[EscrowUtxo], store: &mut GrantMetaStore) -> (listing: (Vec<GrantListing>, bool))
    requires
        old(store).wf(),
    ensures
        final(store).wf(),
        final(store)@ == meta_after(config@, grant_views(grants@), old(store)@, grants@.len()),
        listing.1 == exists|i: int|
            0 <= i < grants@.len() && #[trigger] is_remembered(config@, grant_views(grants@), old(store)@, i),
        ({
            let live = live_listings(config@, grant_views(grants@), old(store)@, grants@.len());
            let listed = listing_views(listing.0@);
            live.len() <= listed.len() && listed.take(live.len() as int) == live && lists_completed(
                listed.skip(live.len() as int),
                shown_completed(config@, grant_views(grants@), old(store)@),
            )
        }),
{
    let ids = ids_of(grants);
    let ghost views = grant_views(grants@);
    let ghost meta = store@;
    let mut listed: Vec<GrantListing> = Vec::new();
    let mut remembered: bool = false;
    assert(listing_views(listed@) =~= seq![]);
    for i in 0..grants.len()
        invariant
            views == grant_views(grants@),
            ids@.len() == grants@.len(),
            forall|j: int|
                0 <= j < ids@.len() ==> (#[trigger] ids@[j])@ == grants@[j]@.datum.grant_id() && ids@[j]@.len() == 64,
            store.wf(),
            store@ == meta_after(config@, views, meta, i as nat),
            listing_views(listed@) == live_listings(config@, views, meta, i as nat),
            remembered == exists|j: int| 0 <= j < i && #[trigger] is_remembered(config@, views, meta, j),
    {
        let ghost before_remembered = remembered;
        let grant = &grants[i];
        let id = &ids[i];
        assert(views[i as int] == grant@);
        proof {
            lemma_meta_after(config@, views, meta, i as nat);
            assert(store@.dom().contains(id@) == meta.dom().contains(id@));
        }
        if !config.ignores(id) && !grant.datum.unspendable_legacy_shape {
            let policy_verified: bool = same_text(
                &encode_hex(&grant.datum.receipt_policy_id),
                &config.receipt_policy_id,
            );
            let collision: bool = occurs_elsewhere(&ids, i);
            proof {
                if collision {
                    let j = choose|j: int| 0 <= j < ids@.len() && j != i && (#[trigger] ids@[j])@ == ids@[i as int]@;
                    assert(views[j].datum.grant_id() == views[i as int].datum.grant_id());
                }
                if shares_id(views, i as int) {
                    let j = choose|j: int|
                        0 <= j < views.len() && j != i && (#[trigger] views[j]).datum.grant_id()
                            == views[i as int].datum.grant_id();
                    assert(ids@[j]@ == ids@[i as int]@);
                }
            }
            let trusted: bool = policy_verified && !collision;
            let known = if trusted {
                store.get(id)
            } else {
                None
            };
            if trusted {
                let snapshot = GrantSnapshot {
                    tx_hash: grant.tx_hash.clone(),
                    output_index: grant.output_index,
                    lovelace: grant.lovelace,
                    datum: grant.datum.copied(),
                };
                assert(snapshot@ =~= snapshot_of(views[i as int]));
                let recorded: bool = store.record_snapshot(id, snapshot);
                remembered = remembered || recorded;
            }
            let (name, milestones) = match known {
                Some(found) => (found.name, Some(found.milestones)),
                None => (unnamed_grant(id), None),
            };
            let listing = GrantListing {
                grant_id: id.clone(),
                tx_hash: grant.tx_hash.clone(),
                output_index: grant.output_index,
                lovelace: grant.lovelace,
                datum: grant.datum.to_json(),
                name,
                milestones,
                trusted,
                warnings: warnings_on(policy_verified, collision),
                completed: false,
            };
            assert(listing@ =~= live_listing(config@, views, meta, i as int));
            let ghost before = listing_views(listed@);
            listed.push(listing);
            assert(listing_views(listed@) =~= before.push(listing@));
        }
        assert(remembered == (before_remembered || is_remembered(config@, views, meta, i as int)));
    }
    let ghost live = listing_views(listed@);
    let mut completed = completed_part(config, grants, &ids, store);
    let ghost rest = listing_views(completed@);
    proof {
        lemma_same_completed(config@, views, meta);
    }
    listed.append(&mut completed);
    assert(listing_views(listed@) =~= live + rest);
    assert((live + rest).take(live.len() as int) =~= live);
    assert((live + rest).skip(live.len() as int) =~= rest);
    (listed, remembered)
}

/// The part that an address has in a grant.
#[derive(Debug, Clone, Copy, PartialEq, Eq, Structural)]
pub enum Role {
    /// The one who locked the funds.
    Funder,
    /// The one whom the funds are for.
    Grantee,
    /// Anyone else.
    Outsider,
}

impl Role {
    /// The word for the role.
    pub fn word(&self) -> (word: &'static str)
        ensures
            word@ == match *self {
                Role::Funder => "funder"@,
                Role::Grantee => "grantee"@,
                Role::Outsider => "none"@,
            },
    {
        match self {
            Role::Funder => "funder",
            Role::Grantee => "grantee",
            Role::Outsider => "none",
        }
    }
}

/// The part that the holder of a key has in a grant. Who is both counts as
/// the funder.
pub open spec fn role_of(key_hash: Seq<u8>, datum: DatumView) -> Role {
    if key_hash == datum.reviewer {
        Role::Funder
    } else if key_hash == datum.proposer {
        Role::Grantee
    } else {
        Role::Outsider
    }
}

/// The part that the holder of a key has in a grant.
pub fn grant_role(key_hash: &[u8; 28], datum: &Datum) -> (role: Role)
    ensures
        role == role_of(key_hash@, datum@),
{
    if same_hash(key_hash, &datum.reviewer) {
        Role::Funder
    } else if same_hash(key_hash, &datum.proposer) {
        Role::Grantee
    } else {
        Role::Outsider
    }
}

/// The state of the grant in an output: that of the live grant there, or else
/// one that was remembered for it.
pub fn resolve_datum(grants: &[EscrowUtxo], store: &GrantMetaStore, tx_hash: &str, output_index: u64) -> (datum: Option<Datum>)
    requires
        store.wf(),
    ensures
        match datum {
            Some(found) => is_live_state(grant_views(grants@), tx_hash@, output_index, found@) || (!is_live_output(
                grant_views(grants@),
                tx_hash@,
                output_index,
            ) && is_remembered_state(store@, tx_hash@, output_index, found@)),
            None => !is_live_output(grant_views(grants@), tx_hash@, output_index) && !exists|state: DatumView|
                is_remembered_state(store@, tx_hash@, output_index, state),
        },
{
    let ghost views = grant_views(grants@);
    match find_by_outref(grants, tx_hash, output_index) {
        Some(grant) => {
            proof {
                let place = choose|place: int|
                    0 <= place < grants@.len() && #[trigger] grants@[place] == *grant && grants@[place]@.is_at(
                        tx_hash@,
                        output_index,
                    ) && forall|i: int| 0 <= i < place ==> !(#[trigger] grants@[i])@.is_at(tx_hash@, output_index);
                assert(views[place] == grant@);
                assert forall|i: int| 0 <= i < place implies !(#[trigger] views[i]).is_at(tx_hash@, output_index) by {
                    assert(views[i] == grants@[i]@);
                }
            }
            Some(grant.datum.copied())
        },
        None => {
            assert forall|i: int| 0 <= i < views.len() implies !(#[trigger] views[i]).is_at(tx_hash@, output_index) by {
                assert(views[i] == grants@[i]@);
            }
            match store.snapshot_by_outref(tx_hash, output_index) {
                Some(snapshot) => Some(snapshot.datum),
                None => None,
            }
        },
    }
}

/// Whether a live grant is in an output.
pub open spec fn is_live_output(grants: Seq<EscrowUtxoView>, tx_hash: Seq<char>, output_index: u64) -> bool {
    exists|i: int| 0 <= i < grants.len() && (#[trigger] grants[i]).is_at(tx_hash, output_index)
}

/// Whether a state is that of the first live grant in an output.
pub open spec fn is_live_state(
    grants: Seq<EscrowUtxoView>,
    tx_hash: Seq<char>,
    output_index: u64,
    state: DatumView,
) -> bool {
    exists|place: int|
        0 <= place < grants.len() && (#[trigger] grants[place]).is_at(tx_hash, output_index) && grants[place].datum
            == state && forall|i: int| 0 <= i < place ==> !(#[trigger] grants[i]).is_at(tx_hash, output_index)
}

/// Whether a state was remembered for an output.
pub open spec fn is_remembered_state(
    meta: Map<Seq<char>, GrantMetaView>,
    tx_hash: Seq<char>,
    output_index: u64,
    state: DatumView,
) -> bool {
    exists|id: Seq<char>| #[trigger]
        meta.contains_key(id) && (meta[id].snapshot matches Some(seen) && seen.is_at(tx_hash, output_index)
            && seen.datum == state)
}

/// A wish to save a grant's name and milestones.
#[derive(Debug, Clone, PartialEq, Eq)]
pub struct CreateGrantMetaRequest {
    pub proposer_address: String,
    pub reviewer_address: String,
    pub tranche_bps: Vec<i64>,
    pub total_locked: u64,
    pub name: String,
    pub milestones: Vec<MilestoneMeta>,
}

/// The identifier that the terms in a request give, or the address that has no
/// key hash.
pub open spec fn requested_id(req: CreateGrantMetaRequest) -> Result<Seq<char>, AddressError> {
    match (key_hash_of(req.reviewer_address@), key_hash_of(req.proposer_address@)) {
        (Err(error), _) => Err(error),
        (_, Err(error)) => Err(error),
        (Ok(reviewer), Ok(proposer)) => Ok(
            id_of_terms(reviewer, proposer, req.total_locked as i64, req.tranche_bps@),
        ),
    }
}

/// Saves a grant's name and milestones under the identifier that its terms
/// give. What comes back is the identifier, and whether anything was saved:
/// once the grant was seen on the chain, nothing is.
pub fn save_grant_meta(store: &mut GrantMetaStore, req: CreateGrantMetaRequest) -> (saved: Result<(String, bool), AddressError>)
    requires
        old(store).wf(),
    ensures
        final(store).wf(),
        match saved {
            Ok((id, stored)) => requested_id(req) == Ok::<Seq<char>, AddressError>(id@) && stored == !is_locked(
                old(store)@,
                id@,
            ) && final(store)@ == with_meta(old(store)@, id@, req.name@, milestone_views(req.milestones@)),
            Err(error) => requested_id(req) == Err::<Seq<char>, AddressError>(error) && final(store)@ == old(store)@,
        },
{
    let reviewer = match payment_key_hash(&req.reviewer_address) {
        Ok(hash) => hash,
        Err(error) => return Err(error),
    };
    let proposer = match payment_key_hash(&req.proposer_address) {
        Ok(hash) => hash,
        Err(error) => return Err(error),
    };
    let id = grant_id(&reviewer, &proposer, req.total_locked as i64, req.tranche_bps.as_slice());
    let stored: bool = store.set_meta(id.clone(), req.name, req.milestones);
    Ok((id, stored))
}

/// An unsigned transaction as it is answered: its bytes in hexadecimal text.
pub fn unsigned_tx_hex(bytes: &[u8]) -> (text: String)
    ensures
        text@ == hex_text(bytes@),
        is_hex(text@) && hex_bytes(text@) == bytes@,
{
    proof {
        lemma_hex_round_trip(bytes@);
    }
    encode_hex(bytes)
}

/// Why the receipt policy in the settings cannot be used.
#[derive(Debug, Clone, Copy, PartialEq, Eq, Structural)]
pub enum PolicyError {
    /// It is not hexadecimal text.
    InvalidHex,
    /// It is not 28 bytes long.
    WrongLength,
}

/// The bytes of the receipt policy in the settings.
pub fn receipt_policy(config: &Config) -> (policy: Result<[u8; 28], PolicyError>)
    ensures
        match policy {
            Ok(bytes) => is_hex_of(config@.receipt_policy_id, 28) && bytes@ == hex_bytes(config@.receipt_policy_id),
            Err(PolicyError::InvalidHex) => !is_hex(config@.receipt_policy_id),
            Err(PolicyError::WrongLength) => is_hex(config@.receipt_policy_id) && config@.receipt_policy_id.len() != 56,
        },
{
    match decode_hex(&config.receipt_policy_id) {
        Ok(bytes) => {
            if bytes.len() != 28 {
                return Err(PolicyError::WrongLength);
            }
            Ok(array28(&bytes))
        },
        Err(_) => Err(PolicyError::InvalidHex),
    }
}

/// No grant that is listed is one to be ignored, or of a shape that the script
/// cannot spend; only one that is taken to be genuine has a name from the
/// metadata, and it has no warnings; none is listed as completed while it is
/// live.
pub proof fn lemma_listing_is_sound(
    config: ConfigView,
    grants: Seq<EscrowUtxoView>,
    meta: Map<Seq<char>, GrantMetaView>,
    count: nat,
)
    requires
        count <= grants.len(),
    ensures
        forall|k: int|
            0 <= k < live_listings(config, grants, meta, count).len() ==> {
                let listed = #[trigger] live_listings(config, grants, meta, count)[k];
                &&& !config.ignores(listed.grant_id)
                &&& is_live(grants, listed.grant_id)
                &&& listed.trusted == (listed.warnings.len() == 0)
                &&& !listed.trusted ==> listed.name == unnamed(listed.grant_id) && listed.milestones is None
                &&& !listed.completed
                &&& exists|i: int|
                    0 <= i < count && !(#[trigger] grants[i]).datum.unspendable_legacy_shape && listed == live_listing(
                        config,
                        grants,
                        meta,
                        i,
                    )
            },
    decreases count,
{
    if count > 0 {
        let before = live_listings(config, grants, meta, (count - 1) as nat);
        let all = live_listings(config, grants, meta, count);
        lemma_listing_is_sound(config, grants, meta, (count - 1) as nat);
        assert forall|k: int| 0 <= k < all.len() implies {
            let listed = #[trigger] all[k];
            &&& !config.ignores(listed.grant_id)
            &&& is_live(grants, listed.grant_id)
            &&& listed.trusted == (listed.warnings.len() == 0)
            &&& !listed.trusted ==> listed.name == unnamed(listed.grant_id) && listed.milestones is None
            &&& !listed.completed
            &&& exists|i: int|
                0 <= i < count && !(#[trigger] grants[i]).datum.unspendable_legacy_shape && listed == live_listing(
                    config,
                    grants,
                    meta,
                    i,
                )
        } by {
            if k < before.len() {
                assert(all[k] == before[k]);
            } else {
                assert(all[k] == live_listing(config, grants, meta, count - 1));
                assert(grants[count - 1].datum.grant_id() == all[k].grant_id);
            }
        }
    }
}

/// A completed grant that is listed is not live, not one to be ignored and not
/// of a shape that the script cannot spend, and nothing is left in it. Every
/// other grant that was last seen with all its tranches released is listed.
pub proof fn lemma_completed_listing_is_sound(
    config: ConfigView,
    grants: Seq<EscrowUtxoView>,
    meta: Map<Seq<char>, GrantMetaView>,
    listed: Seq<GrantListingView>,
    k: int,
    id: Seq<char>,
)
    requires
        lists_completed(listed, shown_completed(config, grants, meta)),
        0 <= k < listed.len(),
    ensures
        !is_live(grants, listed[k].grant_id),
        !config.ignores(listed[k].grant_id),
        meta.contains_key(listed[k].grant_id),
        meta[listed[k].grant_id].snapshot matches Some(seen) && seen.is_complete()
            && !seen.datum.unspendable_legacy_shape,
        listed[k].completed && listed[k].lovelace == 0 && listed[k].name == meta[listed[k].grant_id].name,
        meta.contains_key(id) && !is_live(grants, id) && !config.ignores(id) && (meta[id].snapshot matches Some(seen)
            && seen.is_complete() && !seen.datum.unspendable_legacy_shape) ==> exists|j: int|
            0 <= j < listed.len() && (#[trigger] listed[j]).grant_id == id,
{
    let entries = shown_completed(config, grants, meta);
    assert(entries.contains_key(listed[k].grant_id));
    if meta.contains_key(id) && !is_live(grants, id) && !config.ignores(id) && (meta[id].snapshot matches Some(seen)
        && seen.is_complete() && !seen.datum.unspendable_legacy_shape) {
        assert(entries.contains_key(id));
    }
}

/// The identifier under which metadata is saved for some terms is that of the
/// escrow which is then created on these terms.
pub proof fn lemma_saved_id_is_the_created_one(
    meta: CreateGrantMetaRequest,
    req: CreateEscrowView,
    escrow_address: Seq<char>,
    receipt_policy_id: Seq<u8>,
    plan: CreatePlanView,
)
    requires
        meta.reviewer_address@ == req.reviewer_address,
        meta.proposer_address@ == req.proposer_address,
        meta.tranche_bps@ == req.tranche_bps,
        meta.total_locked == req.total_locked,
        req.plan(escrow_address, receipt_policy_id) == Some(Ok::<CreatePlanView, BuildError>(plan)),
    ensures
        requested_id(meta) == Ok::<Seq<char>, AddressError>(plan.datum.grant_id()),
        plan.datum.encoded().grant_id() == plan.datum.grant_id(),
{
}

/// An escrow that is created with the receipt policy in the settings names
/// that policy, where the settings write it in lower case: it gets no warning
/// on that account.
pub proof fn lemma_created_escrow_names_the_policy(
    config: ConfigView,
    req: CreateEscrowView,
    escrow_address: Seq<char>,
    plan: CreatePlanView,
)
    requires
        is_hex_of(config.receipt_policy_id, 28),
        forall|i: int|
            0 <= i < config.receipt_policy_id.len() ==> !('A' <= #[trigger] config.receipt_policy_id[i] <= 'F'),
        req.plan(escrow_address, hex_bytes(config.receipt_policy_id)) == Some(
            Ok::<CreatePlanView, BuildError>(plan),
        ),
    ensures
        policy_matches(config, plan.datum),
        policy_matches(config, plan.datum.encoded()),
{
    lemma_hex_text_of_bytes(config.receipt_policy_id);
}

/// What is known of a listed grant is what its fields hold.
pub proof fn lemma_listing_shows_its_fields(listing: GrantListing)
    ensures
        listing@.grant_id == listing.grant_id@,
        listing@.tx_hash == listing.tx_hash@,
        listing@.output_index == listing.output_index,
        listing@.lovelace == listing.lovelace,
        listing@.datum == listing.datum@,
        listing@.name == listing.name@,
        listing@.milestones is Some <==> listing.milestones is Some,
        listing.milestones matches Some(milestones) ==> listing@.milestones->0.len() == milestones@.len() && forall|
            i: int,
        |
            0 <= i < milestones@.len() ==> #[trigger] listing@.milestones->0[i] == milestones@[i]@,
        listing@.trusted == listing.trusted,
        listing@.warnings.len() == listing.warnings@.len(),
        forall|i: int|
            0 <= i < listing.warnings@.len() ==> #[trigger] listing@.warnings[i] == listing.warnings@[i]@,
        listing@.completed == listing.completed,
{
}

/// What is known of some listed grants is what each of them holds.
pub proof fn lemma_listing_views(listings: Seq<GrantListing>, i: int)
    ensures
        listing_views(listings).len() == listings.len(),
        0 <= i < listings.len() ==> listing_views(listings)[i] == listings[i]@,
{
}

/// The live grants that are listed are, in their order and each once, those
/// whose identifier the settings do not leave out and whose datum the script
/// can spend.
pub proof fn lemma_listing_is_a_selection(
    config: ConfigView,
    grants: Seq<EscrowUtxoView>,
    meta: Map<Seq<char>, GrantMetaView>,
    count: nat,
)
    requires
        count <= grants.len(),
    ensures
        live_listings(config, grants, meta, count) == Seq::new(count, |i: int| i).filter(
            |i: int|
                !config.ignored_grant_ids.contains(grants[i].datum.grant_id())
                    && !grants[i].datum.unspendable_legacy_shape,
        ).map_values(|i: int| live_listing(config, grants, meta, i)),
    decreases count,
{
    reveal(Seq::filter);
    let shown = |i: int|
        !config.ignored_grant_ids.contains(grants[i].datum.grant_id()) && !grants[i].datum.unspendable_legacy_shape;
    let listing = |i: int| live_listing(config, grants, meta, i);
    let places = Seq::new(count, |i: int| i);
    if count == 0 {
        assert(places.filter(shown).map_values(listing) =~= seq![]);
    } else {
        let before = Seq::new((count - 1) as nat, |i: int| i);
        lemma_listing_is_a_selection(config, grants, meta, (count - 1) as nat);
        assert(places.drop_last() =~= before);
        if shown(count - 1) {
            assert(places.filter(shown) =~= before.filter(shown).push(count - 1));
            assert(places.filter(shown).map_values(listing) =~= before.filter(shown).map_values(listing).push(
                listing(count - 1),
            ));
        } else {
            assert(places.filter(shown) =~= before.filter(shown));
        }
    }
}

/// Every live grant is listed, however far it has come, unless the settings
/// leave it out by its identifier or its datum is one that the script cannot
/// spend.
pub proof fn lemma_every_live_grant_is_listed(
    config: Config,
    grants: Seq<EscrowUtxo>,
    meta: Map<Seq<char>, GrantMetaView>,
    i: int,
)
    requires
        0 <= i < grants.len(),
        forall|k: int|
            0 <= k < config.ignored_grant_ids@.len() ==> (#[trigger] config.ignored_grant_ids@[k])@
                != grants[i].datum@.grant_id(),
        !grants[i].datum.unspendable_legacy_shape,
    ensures
        exists|k: int|
            0 <= k < live_listings(config@, grant_views(grants), meta, grants.len()).len() && #[trigger] live_listings(
                config@,
                grant_views(grants),
                meta,
                grants.len(),
            )[k] == live_listing(config@, grant_views(grants), meta, i),
{
    let views = grant_views(grants);
    let id = grants[i].datum@.grant_id();
    if config@.ignored_grant_ids.contains(id) {
        let k = choose|k: int| 0 <= k < config@.ignored_grant_ids.len() && config@.ignored_grant_ids[k] == id;
        assert(config.ignored_grant_ids@[k]@ == id);
    }
    assert(views[i] == grants[i]@);
    lemma_shown_is_listed(config@, views, meta, i, grants.len());
}

/// A live grant that is shown is listed.
proof fn lemma_shown_is_listed(
    config: ConfigView,
    grants: Seq<EscrowUtxoView>,
    meta: Map<Seq<char>, GrantMetaView>,
    i: int,
    count: nat,
)
    requires
        0 <= i < count,
        !config.ignored_grant_ids.contains(grants[i].datum.grant_id()),
        !grants[i].datum.unspendable_legacy_shape,
    ensures
        exists|k: int|
            0 <= k < live_listings(config, grants, meta, count).len() && #[trigger] live_listings(
                config,
                grants,
                meta,
                count,
            )[k] == live_listing(config, grants, meta, i),
    decreases count,
{
    let before = live_listings(config, grants, meta, (count - 1) as nat);
    let all = live_listings(config, grants, meta, count);
    if i < count - 1 {
        lemma_shown_is_listed(config, grants, meta, i, (count - 1) as nat);
        let k = choose|k: int| 0 <= k < before.len() && #[trigger] before[k] == live_listing(config, grants, meta, i);
        assert(all[k] == before[k]);
    } else {
        assert(all[before.len() as int] == live_listing(config, grants, meta, i));
    }
}

/// A live grant is listed with the output that holds it and the state that it
/// is in. It is trusted exactly where its datum names the receipt policy of
/// the settings and no other live grant has its identifier; each of the two
/// that fails is warned of, and nothing else is. Only a trusted grant has the
/// name and the milestones that are kept under its identifier.
pub proof fn lemma_live_listing_shows_the_grant(
    config: Config,
    grants: Seq<EscrowUtxo>,
    meta: Map<Seq<char>, GrantMetaView>,
    i: int,
)
    requires
        0 <= i < grants.len(),
    ensures
        ({
            let listed = live_listing(config@, grant_views(grants), meta, i);
            let id = grants[i].datum@.grant_id();
            let named = hex_text(grants[i].datum.receipt_policy_id@) == config.receipt_policy_id@;
            let alone = forall|j: int|
                0 <= j < grants.len() && j != i ==> (#[trigger] grants[j]).datum@.grant_id() != id;
            &&& listed.grant_id == id
            &&& listed.tx_hash == grants[i].tx_hash@
            &&& listed.output_index == grants[i].output_index
            &&& listed.lovelace == grants[i].lovelace
            &&& listed.datum == grants[i].datum@.json()
            &&& listed.trusted <==> named && alone
            &&& named && alone ==> listed.warnings == Seq::<Seq<char>>::empty()
            &&& !named && alone ==> listed.warnings == seq![POLICY_WARNING@]
            &&& named && !alone ==> listed.warnings == seq![COLLISION_WARNING@]
            &&& !named && !alone ==> listed.warnings == seq![POLICY_WARNING@, COLLISION_WARNING@]
            &&& listed.trusted && meta.contains_key(id) ==> listed.name == meta[id].name && listed.milestones == Some(
                meta[id].milestones,
            )
            &&& !(listed.trusted && meta.contains_key(id)) ==> listed.name == "Unnamed grant ("@ + id.take(8) + ")"@
                && listed.milestones is None
            &&& !listed.completed
        }),
{
    let views = grant_views(grants);
    let id = grants[i].datum@.grant_id();
    assert(views[i] == grants[i]@);
    if shares_id(views, i) {
        let j = choose|j: int|
            0 <= j < views.len() && j != i && (#[trigger] views[j]).datum.grant_id() == views[i].datum.grant_id();
        assert(views[j] == grants[j]@);
        assert(grants[j].datum@.grant_id() == id);
    } else {
        assert forall|j: int| 0 <= j < grants.len() && j != i implies (#[trigger] grants[j]).datum@.grant_id() != id by {
            assert(views[j] == grants[j]@);
        }
    }
    let warnings = live_listing(config@, views, meta, i).warnings;
    assert(seq![] + seq![] =~= Seq::<Seq<char>>::empty());
    assert(seq![POLICY_WARNING@] + seq![] =~= seq![POLICY_WARNING@]);
    assert(seq![] + seq![COLLISION_WARNING@] =~= seq![COLLISION_WARNING@]);
    assert(seq![POLICY_WARNING@] + seq![COLLISION_WARNING@] =~= seq![POLICY_WARNING@, COLLISION_WARNING@]);
}

/// A live grant that is listed and trusted, and has metadata, is remembered as
/// it is on the chain: its output, its lovelace and its state.
pub proof fn lemma_trusted_grant_is_remembered(
    config: ConfigView,
    grants: Seq<EscrowUtxoView>,
    meta: Map<Seq<char>, GrantMetaView>,
    i: int,
    count: nat,
)
    requires
        0 <= i < count <= grants.len(),
        !config.ignored_grant_ids.contains(grants[i].datum.grant_id()),
        !grants[i].datum.unspendable_legacy_shape,
        hex_text(grants[i].datum.receipt_policy_id) == config.receipt_policy_id,
        forall|j: int|
            0 <= j < grants.len() && j != i ==> (#[trigger] grants[j]).datum.grant_id() != grants[i].datum.grant_id(),
        meta.contains_key(grants[i].datum.grant_id()),
    ensures
        ({
            let id = grants[i].datum.grant_id();
            let after = meta_after(config, grants, meta, count);
            &&& is_remembered(config, grants, meta, i)
            &&& after.contains_key(id)
            &&& after[id].name == meta[id].name
            &&& after[id].milestones == meta[id].milestones
            &&& after[id].snapshot matches Some(seen) && seen.tx_hash == grants[i].tx_hash && seen.output_index
                == grants[i].output_index && seen.lovelace == grants[i].lovelace && seen.datum == grants[i].datum
        }),
    decreases count,
{
    lemma_meta_after(config, grants, meta, (count - 1) as nat);
    let id = grants[i].datum.grant_id();
    assert(meta_after(config, grants, meta, (count - 1) as nat).dom().contains(id));
    assert(!shares_id(grants, i));
    if i < count - 1 {
        lemma_trusted_grant_is_remembered(config, grants, meta, i, (count - 1) as nat);
        assert(grants[count - 1].datum.grant_id() != id);
    }
}

/// What is kept under an identifier stays as it is where no live grant with
/// that identifier is both listed and trusted. Nothing is then remembered.
pub proof fn lemma_other_grants_are_not_remembered(
    config: ConfigView,
    grants: Seq<EscrowUtxoView>,
    meta: Map<Seq<char>, GrantMetaView>,
    id: Seq<char>,
    count: nat,
)
    requires
        count <= grants.len(),
        meta.contains_key(id),
        forall|i: int|
            0 <= i < count && (#[trigger] grants[i]).datum.grant_id() == id ==> config.ignored_grant_ids.contains(id)
                || grants[i].datum.unspendable_legacy_shape || hex_text(grants[i].datum.receipt_policy_id)
                != config.receipt_policy_id || exists|j: int|
                0 <= j < grants.len() && j != i && (#[trigger] grants[j]).datum.grant_id() == id,
    ensures
        meta_after(config, grants, meta, count).contains_key(id),
        meta_after(config, grants, meta, count)[id] == meta[id],
        forall|i: int| 0 <= i < count && (#[trigger] grants[i]).datum.grant_id() == id ==> !is_remembered(config, grants, meta, i),
    decreases count,
{
    assert forall|i: int| 0 <= i < count && (#[trigger] grants[i]).datum.grant_id() == id implies !is_remembered(
        config,
        grants,
        meta,
        i,
    ) by {
        if exists|j: int| 0 <= j < grants.len() && j != i && (#[trigger] grants[j]).datum.grant_id() == id {
            assert(shares_id(grants, i));
        }
    }
    if count > 0 {
        lemma_other_grants_are_not_remembered(config, grants, meta, id, (count - 1) as nat);
        lemma_meta_after(config, grants, meta, (count - 1) as nat);
        assert(meta_after(config, grants, meta, (count - 1) as nat).dom().contains(id));
        if grants[count - 1].datum.grant_id() == id {
            assert(!is_remembered(config, grants, meta, count - 1));
        }
    }
}

/// A completed grant is listed exactly where it was last seen with as many
/// tranches released as it has, no live grant has its identifier, the settings
/// do not leave it out, and its datum was one that the script can spend. It is
/// listed with the output and the state that were last seen, with nothing left
/// in it, and with the name and the milestones that are kept.
pub proof fn lemma_completed_listing_shows_the_grant(
    config: ConfigView,
    grants: Seq<EscrowUtxoView>,
    meta: Map<Seq<char>, GrantMetaView>,
    id: Seq<char>,
)
    ensures
        shown_completed(config, grants, meta).contains_key(id) <==> meta.contains_key(id) && (
        meta[id].snapshot matches Some(seen) && seen.datum.released_count == seen.datum.tranche_bps.len()
            && !seen.datum.unspendable_legacy_shape) && (forall|i: int|
            0 <= i < grants.len() ==> (#[trigger] grants[i]).datum.grant_id() != id)
            && !config.ignored_grant_ids.contains(id),
        shown_completed(config, grants, meta).contains_key(id) ==> shown_completed(config, grants, meta)[id] == meta[id],
        meta[id].snapshot matches Some(seen) ==> {
            let listed = completed_listing(id, meta[id]);
            &&& listed.grant_id == id
            &&& listed.tx_hash == seen.tx_hash
            &&& listed.output_index == seen.output_index
            &&& listed.lovelace == 0
            &&& listed.datum == seen.datum.json()
            &&& listed.name == meta[id].name
            &&& listed.milestones == Some(meta[id].milestones)
            &&& listed.trusted
            &&& listed.warnings == Seq::<Seq<char>>::empty()
            &&& listed.completed
        },
{
}

/// Completed grants that are listed are those of the entries: each is listed
/// as what its entry says, none twice, and none is passed over.
pub proof fn lemma_lists_completed(
    listed: Seq<GrantListingView>,
    entries: Map<Seq<char>, GrantMetaView>,
    k: int,
    other: int,
    id: Seq<char>,
)
    requires
        lists_completed(listed, entries),
    ensures
        0 <= k < listed.len() ==> entries.contains_key(listed[k].grant_id) && listed[k] == completed_listing(
            listed[k].grant_id,
            entries[listed[k].grant_id],
        ),
        0 <= k < other < listed.len() ==> listed[k].grant_id != listed[other].grant_id,
        entries.contains_key(id) ==> exists|place: int|
            0 <= place < listed.len() && #[trigger] listed[place] == completed_listing(id, entries[id]),
{
    if entries.contains_key(id) {
        let place = choose|place: int| 0 <= place < listed.len() && (#[trigger] listed[place]).grant_id == id;
        assert(listed[place] == completed_listing(id, entries[id]));
    }
}

/// The funder's key makes the funder, also where it is the proposer's too; the
/// proposer's key otherwise makes the grantee; any other key makes neither.
pub proof fn lemma_roles(key_hash: Seq<u8>, datum: Datum)
    ensures
        role_of(key_hash, datum@) == Role::Funder <==> key_hash == datum.reviewer@,
        role_of(key_hash, datum@) == Role::Grantee <==> key_hash == datum.proposer@ && key_hash != datum.reviewer@,
        role_of(key_hash, datum@) == Role::Outsider <==> key_hash != datum.proposer@ && key_hash != datum.reviewer@,
{
}

/// Metadata is saved under the identifier of every datum on the terms that the
/// request gives, with the keys of its two addresses. An address without a key
/// is told, the funder's first.
pub proof fn lemma_requested_id(req: CreateGrantMetaRequest, datum: DatumView)
    ensures
        key_hash_of(req.reviewer_address@) == Ok::<Seq<u8>, AddressError>(datum.reviewer) && key_hash_of(
            req.proposer_address@,
        ) == Ok::<Seq<u8>, AddressError>(datum.proposer) && req.total_locked as i64 == datum.total_locked
            && req.tranche_bps@ == datum.tranche_bps ==> requested_id(req) == Ok::<Seq<char>, AddressError>(
            datum.grant_id(),
        ),
        requested_id(req) is Ok <==> key_hash_of(req.reviewer_address@) is Ok && key_hash_of(req.proposer_address@) is Ok,
        requested_id(req) matches Err(error) ==> key_hash_of(req.reviewer_address@) == Err::<Seq<u8>, AddressError>(
            error,
        ) || key_hash_of(req.reviewer_address@) is Ok && key_hash_of(req.proposer_address@) == Err::<
            Seq<u8>,
            AddressError,
        >(error),
{
}

/// An output is live exactly where a live grant has its hash and its index; a
/// state was remembered for it exactly where some snapshot has them and holds
/// that state.
pub proof fn lemma_outputs_are_told_by_hash_and_index(
    grants: Seq<EscrowUtxoView>,
    meta: Map<Seq<char>, GrantMetaView>,
    tx_hash: Seq<char>,
    output_index: u64,
    state: DatumView,
)
    ensures
        is_live_output(grants, tx_hash, output_index) <==> exists|i: int|
            0 <= i < grants.len() && (#[trigger] grants[i]).tx_hash == tx_hash && grants[i].output_index == output_index,
        is_live_state(grants, tx_hash, output_index, state) ==> is_live_output(grants, tx_hash, output_index),
        is_remembered_state(meta, tx_hash, output_index, state) <==> exists|id: Seq<char>| #[trigger]
            meta.contains_key(id) && (meta[id].snapshot matches Some(seen) && seen.tx_hash == tx_hash
                && seen.output_index == output_index && seen.datum == state),
{
    if exists|i: int|
        0 <= i < grants.len() && (#[trigger] grants[i]).tx_hash == tx_hash && grants[i].output_index == output_index {
        let i = choose|i: int|
            0 <= i < grants.len() && (#[trigger] grants[i]).tx_hash == tx_hash && grants[i].output_index == output_index;
        assert(grants[i].is_at(tx_hash, output_index));
    }
}

/// The state of a live output is that of the first live grant with its hash
/// and its index.
pub proof fn lemma_first_live_state_counts(
    grants: Seq<EscrowUtxoView>,
    tx_hash: Seq<char>,
    output_index: u64,
    place: int,
    state: DatumView,
)
    requires
        0 <= place < grants.len(),
        grants[place].tx_hash == tx_hash,
        grants[place].output_index == output_index,
        forall|i: int|
            0 <= i < place ==> (#[trigger] grants[i]).tx_hash != tx_hash || grants[i].output_index != output_index,
    ensures
        is_live_state(grants, tx_hash, output_index, state) <==> state == grants[place].datum,
{
    assert(grants[place].is_at(tx_hash, output_index));
    if is_live_state(grants, tx_hash, output_index, state) {
        let first = choose|first: int|
            0 <= first < grants.len() && (#[trigger] grants[first]).is_at(tx_hash, output_index) && grants[first].datum
                == state && forall|i: int| 0 <= i < first ==> !(#[trigger] grants[i]).is_at(tx_hash, output_index);
        assert(grants[first].tx_hash == tx_hash);
    }
    if state == grants[place].datum {
        assert forall|i: int| 0 <= i < place implies !(#[trigger] grants[i]).is_at(tx_hash, output_index) by {}
    }
}

} // verus!
