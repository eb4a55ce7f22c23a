//! The entries of a document's block list as JSON.

use vstd::prelude::*;
use vstd::string::*;

use crate::error::{CoreError, CoreResult};
use crate::ids::BlockId;
use crate::json::{
    flag_notation, has_int, has_member, int_members, json_flag, json_flag_at, json_inner_int,
    json_inner_int_at, json_quote, json_quoted, json_text, json_text_at, names_differ, object_begin,
    object_end, object_member, object_text, value_text, Json,
};
use crate::model::{BlockKind, BlockRecord};
use crate::text::{decimal_signed, decimal_signed_string, same_text};

verus! {

/// What an entry of a block list says.
#[verifier::ext_equal]
pub struct RecordView {
    pub block_id: Seq<char>,
    pub kind: BlockKind,
    pub deleted: bool,
    pub updated_at: i64,
}

impl View for BlockRecord {
    type V = RecordView;

    open spec fn view(&self) -> RecordView {
        RecordView {
            block_id: self.block_id@,
            kind: self.kind,
            deleted: self.deleted,
            updated_at: self.updated_at,
        }
    }
}

/// Entries taken as what they say.
pub open spec fn record_views(s: Seq<BlockRecord>) -> Seq<RecordView> {
    s.map_values(|r: BlockRecord| r@)
}

/// The name of a kind of block.
pub open spec fn kind_name(kind: BlockKind) -> Seq<char> {
    match kind {
        BlockKind::Text => "Text"@,
        BlockKind::Todo => "Todo"@,
        BlockKind::Settings => "Settings"@,
        BlockKind::Log => "Log"@,
    }
}

/// The kind of block that a text names.
pub open spec fn kind_named(name: Seq<char>) -> Option<BlockKind> {
    if name == "Text"@ {
        Some(BlockKind::Text)
    } else if name == "Todo"@ {
        Some(BlockKind::Todo)
    } else if name == "Settings"@ {
        Some(BlockKind::Settings)
    } else if name == "Log"@ {
        Some(BlockKind::Log)
    } else {
        None
    }
}

impl BlockKind {
    /// The name of this kind.
    pub fn name(&self) -> (r: &'static str)
        ensures
            r@ == kind_name(*self),
    {
        match self {
            BlockKind::Text => "Text",
            BlockKind::Todo => "Todo",
            BlockKind::Settings => "Settings",
            BlockKind::Log => "Log",
        }
    }

    /// The kind that `name` names.
    pub fn named(name: &str) -> (r: Option<BlockKind>)
        ensures
            r == kind_named(name@),
    {
        if same_text(name, "Text") {
            Some(BlockKind::Text)
        } else if same_text(name, "Todo") {
            Some(BlockKind::Todo)
        } else if same_text(name, "Settings") {
            Some(BlockKind::Settings)
        } else if same_text(name, "Log") {
            Some(BlockKind::Log)
        } else {
            None
        }
    }
}

/// Each kind is named by its name.
pub proof fn law_kind_name_roundtrip(kind: BlockKind)
    ensures
        kind_named(kind_name(kind)) == Some(kind),
{
    reveal_strlit("Text");
    reveal_strlit("Todo");
    reveal_strlit("Settings");
    reveal_strlit("Log");
    assert("Text"@.len() == 4 && "Todo"@.len() == 4 && "Settings"@.len() == 8 && "Log"@.len() == 3);
    assert("Text"@[1] == 'e' && "Todo"@[1] == 'o');
}

/// The parts of a point in time, in seconds and nanoseconds.
pub open spec fn stamp_members(ms: i64) -> Seq<(Seq<char>, int)> {
    seq![
        ("secs_since_epoch"@, ms as int / 1000),
        ("nanos_since_epoch"@, (ms as int % 1000) * 1_000_000),
    ]
}

/// The members of an entry's object.
pub open spec fn record_members(r: RecordView) -> Seq<(Seq<char>, Json)> {
    seq![
        ("block_id"@, Json::Text(r.block_id)),
        ("kind"@, Json::Text(kind_name(r.kind))),
        ("deleted"@, Json::Flag(r.deleted)),
        ("updated_at"@, Json::Ints(stamp_members(r.updated_at))),
    ]
}

/// The notation of an entry.
pub open spec fn record_text(r: RecordView) -> Seq<char> {
    object_text(record_members(r))
}

/// A point in time from its parts.
pub open spec fn stamp_of(secs: i64, nanos: i64) -> Option<i64> {
    let ms = secs * 1000 + nanos as int / 1_000_000;
    if 0 <= secs && 0 <= nanos <= u32::MAX && ms <= i64::MAX {
        Some(ms as i64)
    } else {
        None
    }
}

/// The point in time that is a member of an object.
pub open spec fn stamp_at(json: Seq<char>, name: Seq<char>) -> Option<i64> {
    match (
        json_inner_int_at(json, name, "secs_since_epoch"@),
        json_inner_int_at(json, name, "nanos_since_epoch"@),
    ) {
        (Some(secs), Some(nanos)) => stamp_of(secs, nanos),
        _ => None,
    }
}

/// What the notation of an entry says.
pub open spec fn record_at(json: Seq<char>) -> Option<RecordView> {
    match (
        json_text_at(json, "block_id"@),
        json_text_at(json, "kind"@),
        json_flag_at(json, "deleted"@),
        stamp_at(json, "updated_at"@),
    ) {
        (Some(block_id), Some(kind), Some(deleted), Some(updated_at)) => match kind_named(kind) {
            Some(kind) => Some(RecordView { block_id, kind, deleted, updated_at }),
            None => None,
        },
        _ => None,
    }
}

/// An entry that was read, taken as what it says.
pub open spec fn record_view(r: Option<BlockRecord>) -> Option<RecordView> {
    match r {
        Some(r) => Some(r@),
        None => None,
    }
}

proof fn lemma_record_members(r: RecordView)
    ensures
        has_member(record_members(r), "block_id"@, Json::Text(r.block_id)),
        has_member(record_members(r), "kind"@, Json::Text(kind_name(r.kind))),
        has_member(record_members(r), "deleted"@, Json::Flag(r.deleted)),
        has_member(record_members(r), "updated_at"@, Json::Ints(stamp_members(r.updated_at))),
        has_int(stamp_members(r.updated_at), "secs_since_epoch"@, r.updated_at as int / 1000),
        has_int(
            stamp_members(r.updated_at),
            "nanos_since_epoch"@,
            (r.updated_at as int % 1000) * 1_000_000,
        ),
{
    reveal_strlit("block_id");
    reveal_strlit("kind");
    reveal_strlit("deleted");
    reveal_strlit("updated_at");
    reveal_strlit("secs_since_epoch");
    reveal_strlit("nanos_since_epoch");
    let m = record_members(r);
    assert(m[0].0.len() == 8 && m[1].0.len() == 4 && m[2].0.len() == 7 && m[3].0.len() == 10);
    assert(names_differ(m));
    assert(m.contains(m[0]) && m.contains(m[1]) && m.contains(m[2]) && m.contains(m[3]));
    let s = stamp_members(r.updated_at);
    assert(s[0].0.len() == 16 && s[1].0.len() == 17);
    assert(s.contains(s[0]) && s.contains(s[1]));
}

/// The notation of a point in time after the epoch.
fn stamp_notation(ms: i64) -> (r: String)
    requires
        ms >= 0,
    ensures
        r@ == value_text(Json::Ints(stamp_members(ms))),
{
    let mut out = "{".to_owned();
    let q = json_quote("secs_since_epoch");
    out.append(q.as_str());
    out.append(":");
    let secs = decimal_signed_string(ms / 1000);
    out.append(secs.as_str());
    out.append(",");
    let q = json_quote("nanos_since_epoch");
    out.append(q.as_str());
    out.append(":");
    let nanos = decimal_signed_string((ms % 1000) * 1_000_000);
    out.append(nanos.as_str());
    out.append("}");
    proof {
        let s = stamp_members(ms);
        let front = s.drop_last();
        assert(front =~= seq![s[0]]);
        assert(s.last() == s[1]);
        assert(front.last() == s[0]);
        let first = json_quoted("secs_since_epoch"@) + ":"@ + decimal_signed(ms as int / 1000);
        assert(int_members(front) =~= first);
        assert(out@ =~= "{"@ + int_members(s) + "}"@);
    }
    out
}

/// Whether `e` is a serialisation error with text `m`.
pub open spec fn is_serialize_error(e: CoreError, m: Seq<char>) -> bool {
    e matches CoreError::Serialize(t) && t@ == m
}

/// What is said of a point in time before the epoch.
pub open spec fn before_epoch_text() -> Seq<char> {
    "SystemTime must be later than UNIX_EPOCH"@
}

/// The notation of an entry. Points in time before the epoch have none.
pub fn record_json(record: &BlockRecord) -> (r: CoreResult<String>)
    ensures
        match r {
            Ok(text) => record.updated_at >= 0 && text@ == record_text(record@),
            Err(e) => record.updated_at < 0 && is_serialize_error(e, before_epoch_text()),
        },
{
    if record.updated_at < 0 {
        return Err(CoreError::Serialize("SystemTime must be later than UNIX_EPOCH".to_owned()));
    }
    let ghost m = record_members(record@);
    let id = json_quote(record.block_id.as_str());
    let kind = json_quote(record.kind.name());
    let flag = flag_notation(record.deleted);
    let stamp = stamp_notation(record.updated_at);
    let mut out = object_begin();
    proof {
        assert(m.take(0) =~= Seq::<(Seq<char>, Json)>::empty());
        assert(m.take(1) =~= m.take(0).push(m[0]));
        assert(m.take(2) =~= m.take(1).push(m[1]));
        assert(m.take(3) =~= m.take(2).push(m[2]));
        assert(m =~= m.take(3).push(m[3]));
    }
    object_member(&mut out, true, "block_id", id.as_str(), Ghost(m.take(0)), Ghost(m[0].1));
    object_member(&mut out, false, "kind", kind.as_str(), Ghost(m.take(1)), Ghost(m[1].1));
    object_member(&mut out, false, "deleted", flag, Ghost(m.take(2)), Ghost(m[2].1));
    object_member(&mut out, false, "updated_at", stamp.as_str(), Ghost(m.take(3)), Ghost(m[3].1));
    object_end(&mut out, Ghost(m));
    Ok(out)
}

/// What the notation of an entry says. An entry that was written is read back.
pub fn parse_record(json: &str) -> (r: Option<BlockRecord>)
    ensures
        record_view(r) == record_at(json@),
        forall|v: RecordView|
            json@ == #[trigger] record_text(v) && v.updated_at >= 0 ==> record_at(json@) == Some(v),
{
    let id = json_text(json, "block_id");
    let kind = json_text(json, "kind");
    let deleted = json_flag(json, "deleted");
    let secs = json_inner_int(json, "updated_at", "secs_since_epoch");
    let nanos = json_inner_int(json, "updated_at", "nanos_since_epoch");
    proof {
        assert forall|v: RecordView|
            json@ == #[trigger] record_text(v) && v.updated_at >= 0 implies record_at(json@)
            == Some(v) by {
            lemma_record_members(v);
            law_kind_name_roundtrip(v.kind);
            let ms = v.updated_at;
            let s: i64 = (ms as int / 1000) as i64;
            let n: i64 = ((ms as int % 1000) * 1_000_000) as i64;
            assert(json@ == object_text(record_members(v)));
            assert(has_int(stamp_members(ms), "secs_since_epoch"@, s as int));
            assert(has_int(stamp_members(ms), "nanos_since_epoch"@, n as int));
            assert(secs == Some(s));
            assert(nanos == Some(n));
            assert(stamp_of(s, n) == Some(ms)) by {
                assert(n as int / 1_000_000 == ms as int % 1000);
            }
        }
    }
    match (id, kind, deleted, secs, nanos) {
        (Some(id), Some(kind), Some(deleted), Some(secs), Some(nanos)) => {
            if secs < 0 || nanos < 0 || nanos > u32::MAX as i64 {
                return None;
            }
            let part: i64 = nanos / 1_000_000;
            if secs > i64::MAX / 1000 || secs * 1000 > i64::MAX - part {
                return None;
            }
            match BlockKind::named(kind.as_str()) {
                Some(kind) => Some(
                    BlockRecord {
                        block_id: BlockId(id),
                        kind,
                        deleted,
                        updated_at: secs * 1000 + part,
                    },
                ),
                None => None,
            }
        },
        _ => None,
    }
}

/// An entry that is written is read back as it was; one of a time before the epoch cannot be written.
pub proof fn law_entry_is_read_back(
    record: &BlockRecord,
    json: CoreResult<String>,
    text: &str,
    r: Option<BlockRecord>,
)
    requires
        call_ensures(record_json, (record,), json),
        json matches Ok(s) ==> s@ == text@,
        call_ensures(parse_record, (text,), r),
    ensures
        json is Ok <==> record.updated_at >= 0,
        json is Ok ==> r is Some && r->Some_0.block_id@ == record.block_id@ && r->Some_0.kind
            == record.kind && r->Some_0.deleted == record.deleted && r->Some_0.updated_at
            == record.updated_at,
        json matches Err(e) ==> e is Serialize,
{
    if json is Ok {
        assert(text@ == record_text(record@));
        assert(record_at(text@) == Some(record@));
        assert(r->Some_0@ == record@);
    }
}

/// A kind is found by its name, and nothing but the name of a kind names one.
pub proof fn law_kind_is_found_by_its_name(
    kind: BlockKind,
    name: &'static str,
    given: &str,
    r: Option<BlockKind>,
    found_name: &'static str,
)
    requires
        call_ensures(BlockKind::name, (&kind,), name),
        call_ensures(BlockKind::named, (given,), r),
        r matches Some(k) ==> call_ensures(BlockKind::name, (&k,), found_name),
    ensures
        given@ == name@ ==> r == Some(kind),
        r is Some ==> found_name@ == given@,
        kind is Text ==> name@ == "Text"@,
        kind is Todo ==> name@ == "Todo"@,
        kind is Settings ==> name@ == "Settings"@,
        kind is Log ==> name@ == "Log"@,
{
    law_kind_name_roundtrip(kind);
}

/// An entry is read just where it has an identifier, a kind that is one, whether it is deleted, and a time
/// that is one; and it says what these say.
pub proof fn law_entry_is_read_by_its_members(
    json: &str,
    r: Option<BlockRecord>,
    kind_named: &'static str,
)
    requires
        call_ensures(parse_record, (json,), r),
        r matches Some(record) ==> call_ensures(BlockKind::name, (&record.kind,), kind_named),
    ensures
        r is Some ==> {
            let secs = json_inner_int_at(json@, "updated_at"@, "secs_since_epoch"@);
            let nanos = json_inner_int_at(json@, "updated_at"@, "nanos_since_epoch"@);
            &&& json_text_at(json@, "block_id"@) == Some(r->Some_0.block_id@)
            &&& json_text_at(json@, "kind"@) == Some(kind_named@)
            &&& json_flag_at(json@, "deleted"@) == Some(r->Some_0.deleted)
            &&& secs is Some && nanos is Some
            &&& r->Some_0.updated_at == secs->Some_0 * 1000 + nanos->Some_0 as int / 1_000_000
        },
        json_text_at(json@, "block_id"@) is None || json_text_at(json@, "kind"@) is None
            || json_flag_at(json@, "deleted"@) is None || json_inner_int_at(
            json@,
            "updated_at"@,
            "secs_since_epoch"@,
        ) is None || json_inner_int_at(json@, "updated_at"@, "nanos_since_epoch"@) is None
            ==> r is None,
{
    if r is Some {
        assert(r->Some_0@.block_id == r->Some_0.block_id@);
    }
}

} // verus!
