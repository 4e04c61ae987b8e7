//! Decision logic of the hot-reload watcher. The watcher subscribes to the
//! configuration file and to every disk-backed route's source file; the
//! functions here build that subscription mapping, translate a raw
//! filesystem event into the action owed, and re-install a re-derived
//! record. Event delivery, debouncing and file reading stay outside.

use vstd::prelude::*;
use crate::bytes::{bytes_eq, copy_range};
use crate::config::Config;
use crate::table::{RouteTable, lemma_entries_map_contains, lemma_entries_map_index};

verus! {

/// The watcher's states: off for good, waiting for events, or applying one.
pub enum WatcherState {
    /// Hot reload is disabled; this state is terminal.
    Disabled,
    /// Subscribed and blocked on the next filesystem event.
    Watching,
    /// Re-deriving records for one batch of events.
    Reconciling,
}

/// Where the watcher starts: watching when hot reload is enabled, disabled
/// for good otherwise.
pub fn initial_watcher_state(cfg: &Config) -> (s: WatcherState)
    ensures
        cfg.enable_hot_reload ==> s is Watching,
        !cfg.enable_hot_reload ==> s is Disabled,
{
    if cfg.enable_hot_reload {
        WatcherState::Watching
    } else {
        WatcherState::Disabled
    }
}

/// An event moves a watching watcher into reconciliation.
pub fn begin_reconcile(s: WatcherState) -> (t: WatcherState)
    requires
        s is Watching,
    ensures
        t is Reconciling,
{
    WatcherState::Reconciling
}

/// A finished (or abandoned) reconciliation returns to watching.
pub fn finish_reconcile(s: WatcherState) -> (t: WatcherState)
    requires
        s is Reconciling,
    ensures
        t is Watching,
{
    WatcherState::Watching
}

/// One subscription: a source file path and the table key it backs.
pub struct WatchPair {
    pub source_path: Vec<u8>,
    pub key: Vec<u8>,
}

/// A pair stands for an entry whose record the source path backs.
pub open spec fn pair_tracks(t: &RouteTable, p: WatchPair) -> bool {
    &&& t@.contains_key(p.key@)
    &&& t@[p.key@].disk_path == p.source_path@
    &&& p.source_path@.len() > 0
}

/// Builds the watch mapping for the table: one pair for every disk-backed
/// route, that is every entry with a source path — memory-resident
/// snapshots and disk-resident records alike, since a disk-resident
/// template's retained rendered bytes go stale just as cached bytes do.
pub fn watch_mapping(table: &RouteTable) -> (r: Vec<WatchPair>)
    requires
        table.wf(),
    ensures
        forall|p: int| 0 <= p < r@.len() ==> pair_tracks(table, #[trigger] r@[p]),
        forall|k: Seq<u8>|
            table@.contains_key(k) && table@[k].disk_path.len() > 0 ==> exists|p: int|
                0 <= p < r@.len() && (#[trigger] r@[p]).key@ == k,
{
    let mut out: Vec<WatchPair> = Vec::new();
    let mut i: usize = 0;
    proof {
        lemma_entries_map_index(table.entries@);
    }
    while i < table.entries.len()
        invariant
            0 <= i <= table.entries@.len(),
            table.wf(),
            forall|p: int| 0 <= p < out@.len() ==> pair_tracks(table, #[trigger] out@[p]),
            forall|ii: int|
                0 <= ii < i && (#[trigger] table.entries@[ii].record@).disk_path.len() > 0
                    ==> exists|p: int|
                    0 <= p < out@.len() && (#[trigger] out@[p]).key@ == table.entries@[ii].key@,
        decreases table.entries@.len() - i,
    {
        let slot = &table.entries[i];
        if slot.record.disk_path.len() > 0 {
            let source_path = copy_range(&slot.record.disk_path, 0, slot.record.disk_path.len());
            let key = copy_range(&slot.key, 0, slot.key.len());
            assert(source_path@ =~= slot.record.disk_path@);
            assert(key@ =~= slot.key@);
            let pair = WatchPair { source_path, key };
            proof {
                lemma_entries_map_index(table.entries@);
                assert(pair_tracks(table, pair));
            }
            let ghost prev_out = out@;
            out.push(pair);
            proof {
                assert forall|ii: int|
                    0 <= ii < i + 1 && (#[trigger] table.entries@[ii].record@).disk_path.len()
                        > 0 implies exists|p: int|
                    0 <= p < out@.len() && (#[trigger] out@[p]).key@
                        == table.entries@[ii].key@ by {
                    if ii == i {
                        assert(out@[out@.len() - 1].key@ == table.entries@[ii].key@);
                    } else {
                        let p = choose|p: int|
                            0 <= p < prev_out.len() && (#[trigger] prev_out[p]).key@
                                == table.entries@[ii].key@;
                        assert(out@[p] == prev_out[p]);
                    }
                }
            }
        }
        i = i + 1;
    }
    proof {
        assert forall|k: Seq<u8>|
            table@.contains_key(k) && table@[k].disk_path.len() > 0 implies exists|p: int|
            0 <= p < out@.len() && (#[trigger] out@[p]).key@ == k by {
            lemma_entries_map_contains(table.entries@);
            lemma_entries_map_index(table.entries@);
            let ii = choose|ii: int|
                0 <= ii < table.entries@.len() && #[trigger] table.entries@[ii].key@ == k;
            assert(table.entries@[ii].record@ == table@[k]);
            assert(table.entries@[ii].record.disk_path@.len() > 0);
        }
    }
    out
}

/// The key the mapping holds for a source path, the latest pair winning.
pub open spec fn mapping_lookup(s: Seq<WatchPair>, path: Seq<u8>) -> Option<Seq<u8>>
    decreases s.len(),
{
    if s.len() == 0 {
        Option::None
    } else if s.last().source_path@ == path {
        Option::Some(s.last().key@)
    } else {
        mapping_lookup(s.drop_last(), path)
    }
}

/// What one filesystem event asks for: a full rebuild when the
/// configuration file itself changed, and the re-derivation of the one key a
/// tracked file backs.
pub struct WatchAction {
    pub rebuild_config: bool,
    pub reconcile_key: Option<Vec<u8>>,
}

/// Translates one debounced event path into the action owed: an event on
/// the configuration file demands a full rebuild; an event on a tracked
/// source file names the key to re-derive; anything else asks for nothing.
pub fn classify_event(
    event_path: &Vec<u8>,
    config_path: &Vec<u8>,
    mapping: &Vec<WatchPair>,
) -> (a: WatchAction)
    ensures
        a.rebuild_config == (event_path@ == config_path@),
        match a.reconcile_key {
            Option::Some(k) => mapping_lookup(mapping@, event_path@) == Option::Some(k@),
            Option::None => mapping_lookup(mapping@, event_path@) is None,
        },
{
    let rebuild_config = bytes_eq(event_path, config_path);
    let mut reconcile_key: Option<Vec<u8>> = Option::None;
    let mut i: usize = mapping.len();
    assert(mapping@.take(i as int) =~= mapping@);
    while i > 0
        invariant
            0 <= i <= mapping@.len(),
            reconcile_key is None,
            rebuild_config == (event_path@ == config_path@),
            mapping_lookup(mapping@, event_path@) == mapping_lookup(
                mapping@.take(i as int),
                event_path@,
            ),
        decreases i,
    {
        i = i - 1;
        assert(mapping@.take(i + 1 as int).drop_last() =~= mapping@.take(i as int));
        assert(mapping@.take(i + 1 as int).last() == mapping@[i as int]);
        if bytes_eq(&mapping[i].source_path, event_path) {
            let k = copy_range(&mapping[i].key, 0, mapping[i].key.len());
            assert(k@ =~= mapping@[i as int].key@);
            reconcile_key = Option::Some(k);
            return WatchAction { rebuild_config, reconcile_key };
        }
    }
    assert(mapping@.take(0) =~= Seq::<WatchPair>::empty());
    WatchAction { rebuild_config, reconcile_key }
}

} // verus!
