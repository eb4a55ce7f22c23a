use tacit::block_cache::BlockDocCache;
use tacit::block_doc::BlockDoc;
use tacit::block_record::{parse_record, record_json};
use tacit::converter::{
    format_peer_id, frontier_to_frontiers, frontier_to_vv, frontiers_to_frontier, parse_peer_id,
    LoroExport,
};
use tacit::error::{CoreError, CoreResult};
use tacit::frontier::Frontier;
use tacit::ids::{BlockId, DocId, PeerId};
use tacit::meta_doc::MetaDoc;
use tacit::model::{BlockKind, BlockRecord};

fn pid(n: u64) -> PeerId {
    PeerId(n.to_string())
}

fn text_block(id: &str) -> BlockDoc {
    BlockDoc::new(BlockId::new(id), BlockKind::Text, &pid(1)).unwrap()
}

#[test]
fn edit_and_snapshot_roundtrip() {
    let mut block = text_block("b1");
    block.apply_edit(b"hello").unwrap();
    let snap = block.export_snapshot().unwrap();

    let block2 =
        BlockDoc::from_snapshot(BlockId::new("b1"), BlockKind::Text, &pid(2), &snap).unwrap();
    let render = block2.export_render_bytes().unwrap();
    assert_eq!(render, b"hello");
}

#[test]
fn delta_sync_between_two_docs() {
    let mut a = text_block("b1");
    a.apply_edit(b"foo").unwrap();
    let f0 = a.frontier().unwrap();

    let mut b = BlockDoc::new(BlockId::new("b1"), BlockKind::Text, &pid(2)).unwrap();
    let snap = a.export_snapshot().unwrap();
    b.import(&snap).unwrap();

    a.apply_edit(b"bar").unwrap();
    let delta = a.export_delta_since(&f0).unwrap();
    let imported = b.import(&delta).unwrap();
    assert!(imported.changed);

    let render = b.export_render_bytes().unwrap();
    assert_eq!(render, b"foobar");
}

#[test]
fn replicas_changed_apart_converge() {
    let mut a = text_block("b1");
    a.apply_edit(b"base ").unwrap();
    let start = a.frontier().unwrap();
    let mut b = BlockDoc::new(BlockId::new("b1"), BlockKind::Text, &pid(2)).unwrap();
    b.import(&a.export_snapshot().unwrap()).unwrap();

    a.apply_edit(b"from a").unwrap();
    b.apply_edit(b"from b").unwrap();
    let a_delta = a.export_delta_since(&start).unwrap();
    let b_delta = b.export_delta_since(&start).unwrap();
    assert!(a.import(&b_delta).unwrap().changed);
    assert!(b.import(&a_delta).unwrap().changed);

    let shown = a.export_render_bytes().unwrap();
    assert_eq!(shown, b.export_render_bytes().unwrap());
    assert_eq!(shown.len(), "base from afrom b".len());
    assert!(shown.starts_with(b"base "));
    assert!(a.frontier().unwrap().same(&b.frontier().unwrap()));
}

#[test]
fn changes_may_come_in_any_order() {
    let mut source = text_block("b1");
    let mut deltas: Vec<Vec<u8>> = Vec::new();
    for part in ["one ", "two ", "three"] {
        let since = source.frontier().unwrap();
        source.apply_edit(part.as_bytes()).unwrap();
        deltas.push(source.export_delta_since(&since).unwrap());
    }
    for order in [[0, 1, 2], [2, 1, 0], [1, 2, 0], [2, 0, 1]] {
        let mut replica = BlockDoc::new(BlockId::new("b1"), BlockKind::Text, &pid(2)).unwrap();
        for i in order {
            replica.import(&deltas[i]).unwrap();
        }
        assert_eq!(replica.export_render_bytes().unwrap(), b"one two three");
        assert!(replica.frontier().unwrap().same(&source.frontier().unwrap()));
    }
}

#[test]
fn lists_changed_apart_converge() {
    let mut a = MetaDoc::new(DocId::new("d"), &pid(1)).unwrap();
    a.add_block_at(BlockId::new("x"), BlockKind::Text, 1).unwrap();
    let start = a.frontier().unwrap();
    let mut b = MetaDoc::new(DocId::new("d"), &pid(2)).unwrap();
    b.import(&a.export_snapshot().unwrap()).unwrap();

    a.add_block_at(BlockId::new("y"), BlockKind::Todo, 2).unwrap();
    b.add_block_at(BlockId::new("z"), BlockKind::Log, 3).unwrap();
    let a_delta = a.export_delta_since(&start).unwrap();
    let b_delta = b.export_delta_since(&start).unwrap();
    a.import(&b_delta).unwrap();
    b.import(&a_delta).unwrap();

    let listed = a.list_blocks().unwrap();
    assert_eq!(listed, b.list_blocks().unwrap());
    assert_eq!(listed.len(), 3);
    assert_eq!(listed[0].block_id, BlockId::new("x"));
}

#[test]
fn idempotent_import() {
    let mut a = text_block("b1");
    a.apply_edit(b"x").unwrap();
    let snap = a.export_snapshot().unwrap();

    let mut b = BlockDoc::new(BlockId::new("b1"), BlockKind::Text, &pid(2)).unwrap();
    b.import(&snap).unwrap();
    let r = b.import(&snap).unwrap();
    assert!(!r.changed, "重复导入应幂等");
}

#[test]
fn todo_block_uses_list_container() {
    let mut block = BlockDoc::new(BlockId::new("b1"), BlockKind::Todo, &pid(1)).unwrap();
    block.apply_edit(br#"{"text":"buy milk","done":false}"#).unwrap();
    let render = block.export_render_bytes().unwrap();
    let items: Vec<serde_json::Value> = serde_json::from_slice(&render).unwrap();
    assert_eq!(items.len(), 1);
    assert_eq!(items[0]["text"], "buy milk");
}

#[test]
fn todo_update_toggles_completed() {
    let mut block = BlockDoc::new(BlockId::new("b1"), BlockKind::Todo, &pid(1)).unwrap();
    block.apply_edit(br#"{"text":"buy milk","completed":false}"#).unwrap();

    block.apply_todo_update(0, true).unwrap();
    let render = block.export_render_bytes().unwrap();
    let items: Vec<serde_json::Value> = serde_json::from_slice(&render).unwrap();
    assert_eq!(items.len(), 1);
    assert_eq!(items[0]["completed"], true);
    assert_eq!(items[0]["text"], "buy milk");

    block.apply_todo_update(0, false).unwrap();
    let render = block.export_render_bytes().unwrap();
    let items: Vec<serde_json::Value> = serde_json::from_slice(&render).unwrap();
    assert_eq!(items[0]["completed"], false);
}

#[test]
fn todo_update_out_of_range_errors() {
    let mut block = BlockDoc::new(BlockId::new("b1"), BlockKind::Todo, &pid(1)).unwrap();
    block.apply_edit(br#"{"text":"task","completed":false}"#).unwrap();
    let result = block.apply_todo_update(5, true);
    assert!(result.is_err());
}

#[test]
fn settings_block_uses_map_container() {
    let mut block = BlockDoc::new(BlockId::new("b1"), BlockKind::Settings, &pid(1)).unwrap();
    block.apply_edit(br#"{"theme":"dark","font_size":14}"#).unwrap();
    let render = block.export_render_bytes().unwrap();
    let map: serde_json::Value = serde_json::from_slice(&render).unwrap();
    assert_eq!(map["theme"], "dark");
    assert_eq!(map["font_size"], 14);
}

#[test]
fn peer_id_stored_correctly() {
    let block = BlockDoc::new(BlockId::new("b1"), BlockKind::Text, &pid(42)).unwrap();
    assert_eq!(block.peer_id(), &pid(42));
}

#[test]
fn block_tells_what_it_was_made_of() {
    let block = BlockDoc::new(BlockId::new("b7"), BlockKind::Log, &pid(42)).unwrap();
    assert_eq!(block.block_id(), &BlockId::new("b7"));
    assert_eq!(block.kind(), BlockKind::Log);
    assert_eq!(block.loro_peer_id_str(), "42");
    assert!(block.frontier().unwrap().is_empty());
}

#[test]
fn log_block_keeps_json_values_in_order() {
    let mut block = BlockDoc::new(BlockId::new("b1"), BlockKind::Log, &pid(1)).unwrap();
    block.apply_edit(br#"{"level":"info"}"#).unwrap();
    block.apply_edit(b"\"second line\"").unwrap();
    assert!(matches!(block.apply_edit(b"plain line"), Err(CoreError::Crdt(_))));
    let render = block.export_render_bytes().unwrap();
    let items: Vec<serde_json::Value> = serde_json::from_slice(&render).unwrap();
    assert_eq!(items.len(), 2);
    assert_eq!(items[0]["level"], "info");
    assert_eq!(items[1], "second line");
}

#[test]
fn text_edits_are_put_at_the_end() {
    let mut block = text_block("b1");
    block.apply_edit("你好".as_bytes()).unwrap();
    block.apply_edit(b", world").unwrap();
    assert_eq!(block.export_render_bytes().unwrap(), "你好, world".as_bytes());
}

#[test]
fn edit_moves_the_frontier() {
    let mut block = text_block("b1");
    let result = block.apply_edit(b"abc").unwrap();
    assert!(result.has_delta);
    assert_eq!(result.new_frontier.get(&pid(1)), block.frontier().unwrap().get(&pid(1)));
    assert!(result.new_frontier.get(&pid(1)).is_some());
}

#[test]
fn shallow_snapshot_restores_the_text() {
    let mut block = text_block("b1");
    block.apply_edit(b"abc").unwrap();
    let at = block.frontier().unwrap();
    let bytes = block.export_shallow_snapshot(&at).unwrap();
    let mut other = BlockDoc::new(BlockId::new("b1"), BlockKind::Text, &pid(2)).unwrap();
    other.import(&bytes).unwrap();
    assert_eq!(other.export_render_bytes().unwrap(), b"abc");
}

#[test]
fn a_block_made_from_a_shallow_snapshot_is_up_to_date() {
    let mut block = BlockDoc::new(BlockId::new("b1"), BlockKind::Log, &pid(1)).unwrap();
    block.apply_edit(b"1").unwrap();
    let at = block.frontier().unwrap();
    for n in 2..400 {
        block.apply_edit(n.to_string().as_bytes()).unwrap();
        if n == 3 || n == 399 {
            let bytes = block.export_shallow_snapshot(&at).unwrap();
            let other =
                BlockDoc::from_snapshot(BlockId::new("b1"), BlockKind::Log, &pid(2), &bytes)
                    .unwrap();
            assert_eq!(
                other.export_render_bytes().unwrap(),
                block.export_render_bytes().unwrap()
            );
            assert_eq!(other.frontier().unwrap(), block.frontier().unwrap());
        }
    }
    let empty = text_block("b2");
    let bytes = empty.export_shallow_snapshot(&Frontier::new()).unwrap();
    let other =
        BlockDoc::from_snapshot(BlockId::new("b2"), BlockKind::Text, &pid(2), &bytes).unwrap();
    assert!(other.export_render_bytes().unwrap().is_empty());
    assert!(other.frontier().unwrap().is_empty());
    let mut text = text_block("b3");
    text.apply_edit(b"abc").unwrap();
    let bytes = text.export_shallow_snapshot(&Frontier::new()).unwrap();
    let other =
        BlockDoc::from_snapshot(BlockId::new("b3"), BlockKind::Text, &pid(2), &bytes).unwrap();
    assert_eq!(other.export_render_bytes().unwrap(), b"abc");
    assert_eq!(other.frontier().unwrap(), text.frontier().unwrap());
}

#[test]
fn a_new_block_that_was_read_takes_a_snapshot_in() {
    let mut block = text_block("b1");
    block.apply_edit(b"abc").unwrap();
    let bytes = block.export_snapshot().unwrap();
    let mut other = BlockDoc::new(BlockId::new("b1"), BlockKind::Text, &pid(2)).unwrap();
    assert!(other.export_render_bytes().unwrap().is_empty());
    other.export_snapshot().unwrap();
    assert!(other.import(&bytes).unwrap().changed);
    assert_eq!(other.export_render_bytes().unwrap(), b"abc");
    assert_eq!(other.frontier().unwrap(), block.frontier().unwrap());
}

#[test]
fn replicas_of_a_block_pull_from_each_other() {
    let mut a = text_block("b1");
    a.apply_edit(b"abc").unwrap();
    let mut b = a.replica(&pid(2)).unwrap();
    assert_eq!(b.block_id(), a.block_id());
    assert_eq!(b.kind(), BlockKind::Text);
    assert_eq!(b.peer_id(), &pid(2));
    assert_eq!(b.loro_peer_id_str(), "2");
    assert_eq!(b.export_render_bytes().unwrap(), b"abc");
    assert_eq!(b.frontier().unwrap(), a.frontier().unwrap());
    a.apply_edit(b"de").unwrap();
    b.apply_edit(b"fg").unwrap();
    assert!(a.pull_from(&b).unwrap().changed);
    assert!(b.pull_from(&a).unwrap().changed);
    assert_eq!(a.export_render_bytes().unwrap(), b.export_render_bytes().unwrap());
    assert_eq!(a.export_render_bytes().unwrap().len(), 7);
    assert_eq!(a.frontier().unwrap(), b.frontier().unwrap());
    assert!(!a.pull_from(&b).unwrap().changed);
    assert!(matches!(a.replica(&PeerId::new("x")), Err(CoreError::InvalidFrontier(_))));
    assert!(matches!(a.replica(&pid(u64::MAX)), Err(CoreError::Crdt(_))));
}

#[test]
fn replicas_of_a_list_pull_from_each_other() {
    let mut a = MetaDoc::new(DocId::new("d1"), &pid(1)).unwrap();
    a.add_block(BlockId::new("b1"), BlockKind::Text).unwrap();
    let mut b = a.replica(&pid(2)).unwrap();
    assert_eq!(b.doc_id(), a.doc_id());
    assert_eq!(listed(&b), vec!["b1"]);
    a.add_block(BlockId::new("b2"), BlockKind::Todo).unwrap();
    b.soft_delete(&BlockId::new("b1")).unwrap();
    assert!(a.pull_from(&b).unwrap().changed);
    assert!(b.pull_from(&a).unwrap().changed);
    for list in [&a, &b] {
        assert_eq!(listed(list), vec!["b1", "b2"]);
        let active = list.list_active_blocks().unwrap();
        assert_eq!(active.len(), 1);
        assert_eq!(active[0].block_id, BlockId::new("b2"));
    }
    assert!(!b.pull_from(&a).unwrap().changed);
    assert!(matches!(a.replica(&PeerId::new("x")), Err(CoreError::InvalidFrontier(_))));
}

#[test]
fn block_refuses_bad_peers_and_bad_bytes() {
    assert!(BlockDoc::new(BlockId::new("b"), BlockKind::Text, &PeerId::new("x")).is_err());
    assert!(matches!(
        BlockDoc::from_snapshot(BlockId::new("b"), BlockKind::Text, &pid(1), b"garbage"),
        Err(CoreError::Crdt(_))
    ));
    let mut block = text_block("b");
    assert!(matches!(block.import(b"garbage"), Err(CoreError::Crdt(_))));
    assert!(matches!(block.apply_edit(&[0xff, 0xfe]), Err(CoreError::Crdt(_))));
    assert!(block.apply_todo_update(0, true).is_err());
}

#[test]
fn lru_eviction() {
    let mut cache = BlockDocCache::new(2);
    cache.insert(BlockId::new("b1"), text_block("b1"));
    cache.insert(BlockId::new("b2"), text_block("b2"));
    let _ = cache.get(&BlockId::new("b1"));
    let evicted = cache.insert(BlockId::new("b3"), text_block("b3"));
    assert!(evicted.is_some());
    let (evicted_id, _) = evicted.unwrap();
    assert_eq!(evicted_id, BlockId::new("b2"));
    assert!(cache.get(&BlockId::new("b1")).is_some());
    assert!(cache.get(&BlockId::new("b2")).is_none());
    assert!(cache.get(&BlockId::new("b3")).is_some());
}

#[test]
fn remove_explicit() {
    let mut cache = BlockDocCache::new(4);
    cache.insert(BlockId::new("b1"), text_block("b1"));
    assert_eq!(cache.len(), 1);
    cache.remove(&BlockId::new("b1"));
    assert_eq!(cache.len(), 0);
}

#[test]
fn pinned_block_not_evicted() {
    let mut cache = BlockDocCache::new(2);
    cache.insert(BlockId::new("b1"), text_block("b1"));
    cache.insert(BlockId::new("b2"), text_block("b2"));
    cache.pin(&BlockId::new("b2"));
    let evicted = cache.insert(BlockId::new("b3"), text_block("b3"));
    assert!(evicted.is_some());
    let (evicted_id, _) = evicted.unwrap();
    assert_eq!(evicted_id, BlockId::new("b1"));
    assert!(cache.get(&BlockId::new("b2")).is_some());
    assert!(cache.is_pinned(&BlockId::new("b2")));
}

#[test]
fn cold_snapshot_retained() {
    let mut cache = BlockDocCache::new(1);
    let mut b1 = text_block("b1");
    b1.apply_edit(b"hello").unwrap();
    cache.insert(BlockId::new("b1"), b1);
    cache.insert(BlockId::new("b2"), text_block("b2"));
    let snap = cache.get_cold_snapshot(&BlockId::new("b1"));
    assert!(snap.is_some());
    assert!(!snap.unwrap().is_empty());
}

#[test]
fn all_pinned_force_evicts_at_hard_cap() {
    let mut cache = BlockDocCache::new(1);
    cache.pin(&BlockId::new("b1"));
    cache.insert(BlockId::new("b1"), text_block("b1"));
    cache.pin(&BlockId::new("b2"));
    cache.insert(BlockId::new("b2"), text_block("b2"));
    assert!(cache.get(&BlockId::new("b1")).is_some());
    assert!(cache.get(&BlockId::new("b2")).is_some());
    cache.pin(&BlockId::new("b3"));
    let evicted = cache.insert(BlockId::new("b3"), text_block("b3"));
    assert!(evicted.is_some(), "超出硬上限应强制淘汰 pinned 条目");
    let (evicted_id, _) = evicted.unwrap();
    assert_eq!(evicted_id, BlockId::new("b1"));
    assert!(cache.get(&BlockId::new("b1")).is_none());
    assert!(cache.get(&BlockId::new("b2")).is_some());
    assert!(cache.get(&BlockId::new("b3")).is_some());
}

#[test]
fn cold_snapshot_restores_the_evicted_block() {
    let mut cache = BlockDocCache::new(1);
    let mut b1 = text_block("b1");
    b1.apply_edit(b"kept").unwrap();
    cache.insert_at(BlockId::new("b1"), b1, 1_000);
    cache.insert_at(BlockId::new("b2"), text_block("b2"), 2_000);
    assert_eq!(cache.cold_len(), 1);
    let snap = cache.get_cold_snapshot(&BlockId::new("b1")).unwrap();
    let back =
        BlockDoc::from_snapshot(BlockId::new("b1"), BlockKind::Text, &pid(3), &snap).unwrap();
    assert_eq!(back.export_render_bytes().unwrap(), b"kept");

    assert_eq!(cache.cleanup_stale_cold_at(5_000, 6_999), 0);
    assert_eq!(cache.cleanup_stale_cold_at(5_000, 7_000), 1);
    assert_eq!(cache.cold_len(), 0);
}

#[test]
fn cache_lists_visits_and_forgets() {
    let mut cache = BlockDocCache::new(3);
    assert!(cache.is_empty());
    cache.insert(BlockId::new("b1"), text_block("b1"));
    cache.insert(BlockId::new("b2"), text_block("b2"));
    let mut ids: Vec<String> = cache.block_ids().into_iter().map(|b| b.0).collect();
    ids.sort();
    assert_eq!(ids, vec!["b1".to_string(), "b2".to_string()]);
    cache.get_mut(&BlockId::new("b2")).unwrap().apply_edit(b"in place").unwrap();
    assert_eq!(
        cache.get(&BlockId::new("b2")).unwrap().export_render_bytes().unwrap(),
        b"in place"
    );
    let visited = cache.for_each(|id: &BlockId, _doc: &BlockDoc| -> CoreResult<()> {
        if id.as_str() == "b2" {
            Err(CoreError::Internal("stop".to_string()))
        } else {
            Ok(())
        }
    });
    assert!(visited.is_err());
    cache.pin(&BlockId::new("b1"));
    cache.unpin(&BlockId::new("b1"));
    assert!(!cache.is_pinned(&BlockId::new("b1")));
    cache.clear_cold();
    assert_eq!(cache.cold_len(), 0);
    assert_eq!(cache.cleanup_stale_cold(1), 0);
}

#[test]
fn frontier_roundtrip() {
    let mut f = Frontier::new();
    f.set(pid(1), 5);
    f.set(pid(2), 3);
    let vv = frontier_to_vv(&f).unwrap();
    let frontiers = vv.get_frontiers();
    let f2 = frontiers_to_frontier(&frontiers).unwrap();
    assert_eq!(f2.get(&pid(1)), Some(5));
    assert_eq!(f2.get(&pid(2)), Some(3));
}

#[test]
fn empty_frontier() {
    let f = Frontier::new();
    let vv = frontier_to_vv(&f).unwrap();
    let frontiers = vv.get_frontiers();
    let f2 = frontiers_to_frontier(&frontiers).unwrap();
    assert!(f2.is_empty());
}

#[test]
fn invalid_peer_id() {
    let mut f = Frontier::new();
    f.set(PeerId::new("not-a-number"), 1);
    assert!(frontier_to_vv(&f).is_err());
}

#[test]
fn peer_numbers_are_written_and_read() {
    assert_eq!(parse_peer_id("42").unwrap(), 42);
    assert_eq!(format_peer_id(42), "42");
    assert_eq!(parse_peer_id("18446744073709551615").unwrap(), u64::MAX);
    assert!(parse_peer_id("18446744073709551616").is_err());
    assert!(parse_peer_id("").is_err());
}

#[test]
fn frontier_becomes_one_set_of_frontiers() {
    let mut f = Frontier::new();
    f.set(pid(9), 4);
    let made = frontier_to_frontiers(&f).unwrap();
    let mut seen: u64 = 0;
    for one in made.iter() {
        if let Some(seq) = frontiers_to_frontier(one).unwrap().get(&pid(9)) {
            seen = seq;
        }
    }
    assert_eq!(seen, 4);
}

#[test]
fn add_and_list_blocks() {
    let mut meta = MetaDoc::new(DocId::new("d1"), &pid(1)).unwrap();
    meta.add_block(BlockId::new("b1"), BlockKind::Text).unwrap();
    meta.add_block(BlockId::new("b2"), BlockKind::Todo).unwrap();
    let blocks = meta.list_active_blocks().unwrap();
    assert_eq!(blocks.len(), 2);
    assert_eq!(blocks[0].block_id, BlockId::new("b1"));
    assert_eq!(blocks[1].kind, BlockKind::Todo);
}

#[test]
fn soft_delete_hides_block() {
    let mut meta = MetaDoc::new(DocId::new("d1"), &pid(1)).unwrap();
    meta.add_block(BlockId::new("b1"), BlockKind::Text).unwrap();
    meta.add_block(BlockId::new("b2"), BlockKind::Todo).unwrap();
    meta.soft_delete(&BlockId::new("b1")).unwrap();
    let active = meta.list_active_blocks().unwrap();
    assert_eq!(active.len(), 1);
    assert_eq!(active[0].block_id, BlockId::new("b2"));
    let all = meta.list_blocks().unwrap();
    assert_eq!(all.len(), 2);
    assert!(all.iter().any(|b| b.block_id == BlockId::new("b1") && b.deleted));
}

#[test]
fn meta_sync_between_two() {
    let mut a = MetaDoc::new(DocId::new("d1"), &pid(1)).unwrap();
    a.add_block(BlockId::new("b1"), BlockKind::Text).unwrap();
    let snap = a.export_snapshot().unwrap();

    let mut b = MetaDoc::new(DocId::new("d1"), &pid(2)).unwrap();
    b.import(&snap).unwrap();
    let blocks = b.list_active_blocks().unwrap();
    assert_eq!(blocks.len(), 1);
    assert_eq!(blocks[0].block_id, BlockId::new("b1"));
}

fn listed(meta: &MetaDoc) -> Vec<String> {
    meta.list_blocks().unwrap().into_iter().map(|b| b.block_id.0).collect()
}

#[test]
fn meta_blocks_are_moved_and_removed() {
    let mut meta = MetaDoc::new(DocId::new("d1"), &pid(1)).unwrap();
    assert_eq!(meta.doc_id(), &DocId::new("d1"));
    for id in ["b1", "b2", "b3"] {
        meta.add_block_at(BlockId::new(id), BlockKind::Text, 7).unwrap();
    }
    meta.move_block(0, 2).unwrap();
    assert_eq!(listed(&meta), vec!["b2", "b3", "b1"]);
    meta.remove_block(&BlockId::new("b3")).unwrap();
    assert_eq!(listed(&meta), vec!["b2", "b1"]);
    assert!(meta.remove_block(&BlockId::new("b3")).is_err());
    assert!(meta.soft_delete(&BlockId::new("b9")).is_err());
    assert!(meta.move_block(7, 0).is_err());
}

#[test]
fn a_setting_equal_to_the_present_one_is_left_as_it_is() {
    let mut block = BlockDoc::new(BlockId::new("b1"), BlockKind::Settings, &pid(1)).unwrap();
    block.apply_edit(br#"{"a":0.0,"b":1}"#).unwrap();
    block.apply_edit(br#"{"a":-0.0,"b":2}"#).unwrap();
    assert_eq!(block.export_render_bytes().unwrap(), br#"{"a":0.0,"b":2}"#);
}

#[test]
fn moves_count_active_blocks_only() {
    let mut meta = MetaDoc::new(DocId::new("d1"), &pid(1)).unwrap();
    for id in ["b1", "b2", "b3", "b4"] {
        meta.add_block_at(BlockId::new(id), BlockKind::Text, 7).unwrap();
    }
    meta.soft_delete(&BlockId::new("b1")).unwrap();
    let active = |meta: &MetaDoc| -> Vec<String> {
        meta.list_active_blocks().unwrap().into_iter().map(|b| b.block_id.0).collect()
    };
    meta.move_block(0, 1).unwrap();
    assert_eq!(active(&meta), vec!["b3", "b2", "b4"]);
    meta.move_block(2, 0).unwrap();
    assert_eq!(active(&meta), vec!["b4", "b3", "b2"]);
    meta.move_block(1, 1).unwrap();
    assert_eq!(active(&meta), vec!["b4", "b3", "b2"]);
    assert_eq!(meta.list_blocks().unwrap().len(), 4);
    // There are three active blocks, and four entries.
    assert!(meta.move_block(3, 0).is_err());
    assert!(meta.move_block(0, 3).unwrap_err().message().contains("len=3"));
}

#[test]
fn meta_records_keep_their_times() {
    let mut meta = MetaDoc::new(DocId::new("d1"), &pid(1)).unwrap();
    meta.add_block_at(BlockId::new("b1"), BlockKind::Log, 1_700_000_000_123).unwrap();
    assert_eq!(meta.list_blocks().unwrap()[0].updated_at, 1_700_000_000_123);
    meta.soft_delete_at(&BlockId::new("b1"), 1_700_000_000_456).unwrap();
    let all = meta.list_blocks().unwrap();
    assert_eq!(all[0].updated_at, 1_700_000_000_456);
    assert!(all[0].deleted);
    assert_eq!(all[0].kind, BlockKind::Log);
}

#[test]
fn meta_deltas_reach_another_replica() {
    let mut a = MetaDoc::new(DocId::new("d1"), &pid(1)).unwrap();
    a.add_block(BlockId::new("b1"), BlockKind::Text).unwrap();
    let mut b = MetaDoc::from_snapshot(DocId::new("d1"), &pid(2), &a.export_snapshot().unwrap())
        .unwrap();
    assert_eq!(listed(&b), vec!["b1"]);
    let since = b.frontier().unwrap();
    a.add_block(BlockId::new("b2"), BlockKind::Text).unwrap();
    let delta = a.export_delta_since(&since).unwrap();
    assert!(b.import(&delta).unwrap().changed);
    assert_eq!(listed(&b), vec!["b1", "b2"]);
    assert!(matches!(
        MetaDoc::from_snapshot(DocId::new("d"), &pid(1), b"garbage"),
        Err(CoreError::Crdt(_))
    ));
}

#[test]
fn records_are_written_and_read() {
    let record = BlockRecord {
        block_id: BlockId::new("b\"1"),
        kind: BlockKind::Settings,
        deleted: true,
        updated_at: 1_700_000_000_000,
    };
    let json = record_json(&record).unwrap();
    assert_eq!(parse_record(&json), Some(record));
    assert_eq!(parse_record("not json"), None);
    assert_eq!(BlockKind::Todo.name(), "Todo");
    assert_eq!(BlockKind::named("Todo"), Some(BlockKind::Todo));
    assert_eq!(BlockKind::named("todo"), None);
}

#[test]
fn exports_come_through_one_call() {
    let doc = loro::LoroDoc::new();
    doc.set_peer_id(5).unwrap();
    doc.get_text("text").insert(0, "abc").unwrap();
    doc.commit();
    let bytes = LoroExport::Snapshot.export(&doc).unwrap();
    let other = loro::LoroDoc::new();
    other.import(&bytes).unwrap();
    assert_eq!(other.get_text("text").to_string(), "abc");
}
