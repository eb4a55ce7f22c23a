//! Errors as the platform sees them.

use vstd::prelude::*;
use vstd::string::*;

use crate::command_bus::{command_error_text, CommandBusError};
use crate::error::CoreError;
use crate::text::join2;

verus! {

/// An error as the platform sees it.
#[derive(Debug)]
pub enum TacitFfiError {
    DocNotFound(String),
    BlockNotFound { doc_id: String, block_id: String },
    InvalidFrontier(String),
    Store(String),
    Crdt(String),
    Transport(String),
    Crypto(String),
    Sync(String),
    Config(String),
    Io(String),
    Internal(String),
    CommandBus(String),
}

/// The text shown for an error.
pub open spec fn ffi_error_text(e: TacitFfiError) -> Seq<char> {
    match e {
        TacitFfiError::DocNotFound(s) => "文档不存在: "@ + s@,
        TacitFfiError::BlockNotFound { doc_id, block_id } => "block 不存在: doc="@ + doc_id@
            + " block="@ + block_id@,
        TacitFfiError::InvalidFrontier(s) => "frontier 非法: "@ + s@,
        TacitFfiError::Store(s) => "存储错误: "@ + s@,
        TacitFfiError::Crdt(s) => "CRDT 错误: "@ + s@,
        TacitFfiError::Transport(s) => "传输错误: "@ + s@,
        TacitFfiError::Crypto(s) => "加密错误: "@ + s@,
        TacitFfiError::Sync(s) => "同步错误: "@ + s@,
        TacitFfiError::Config(s) => "配置错误: "@ + s@,
        TacitFfiError::Io(s) => "IO 错误: "@ + s@,
        TacitFfiError::Internal(s) => "内部错误: "@ + s@,
        TacitFfiError::CommandBus(s) => "命令总线错误: "@ + s@,
    }
}

/// Whether `r` is what the platform sees of `e`.
pub open spec fn crosses_as(e: CoreError, r: TacitFfiError) -> bool {
    match e {
        CoreError::DocNotFound(s) => r == TacitFfiError::DocNotFound(s),
        CoreError::BlockNotFound { doc_id, block_id } => r == (TacitFfiError::BlockNotFound {
            doc_id,
            block_id,
        }),
        CoreError::InvalidFrontier(s) => r == TacitFfiError::InvalidFrontier(s),
        CoreError::PeerNotFound(s) => r == TacitFfiError::Internal(s),
        CoreError::Serialize(s) => r matches TacitFfiError::Internal(t) && t@ == "序列化失败: "@
            + s@,
        CoreError::Deserialize(s) => r matches TacitFfiError::Internal(t) && t@
            == "反序列化失败: "@ + s@,
        CoreError::Store(s) => r == TacitFfiError::Store(s),
        CoreError::Crdt(s) => r == TacitFfiError::Crdt(s),
        CoreError::Transport(s) => r == TacitFfiError::Transport(s),
        CoreError::Crypto(s) => r == TacitFfiError::Crypto(s),
        CoreError::Sync(s) => r == TacitFfiError::Sync(s),
        CoreError::Config(s) => r == TacitFfiError::Config(s),
        CoreError::Io(s) => r == TacitFfiError::Io(s),
        CoreError::Internal(s) => r == TacitFfiError::Internal(s),
    }
}

impl TacitFfiError {
    /// What the platform sees of an error.
    pub fn of_core(e: CoreError) -> (r: Self)
        ensures
            crosses_as(e, r),
    {
        match e {
            CoreError::DocNotFound(s) => TacitFfiError::DocNotFound(s),
            CoreError::BlockNotFound { doc_id, block_id } => TacitFfiError::BlockNotFound {
                doc_id,
                block_id,
            },
            CoreError::InvalidFrontier(s) => TacitFfiError::InvalidFrontier(s),
            CoreError::PeerNotFound(s) => TacitFfiError::Internal(s),
            CoreError::Serialize(s) => TacitFfiError::Internal(join2("序列化失败: ", s.as_str())),
            CoreError::Deserialize(s) => TacitFfiError::Internal(
                join2("反序列化失败: ", s.as_str()),
            ),
            CoreError::Store(s) => TacitFfiError::Store(s),
            CoreError::Crdt(s) => TacitFfiError::Crdt(s),
            CoreError::Transport(s) => TacitFfiError::Transport(s),
            CoreError::Crypto(s) => TacitFfiError::Crypto(s),
            CoreError::Sync(s) => TacitFfiError::Sync(s),
            CoreError::Config(s) => TacitFfiError::Config(s),
            CoreError::Io(s) => TacitFfiError::Io(s),
            CoreError::Internal(s) => TacitFfiError::Internal(s),
        }
    }

    /// What the platform sees of a command that was not taken.
    pub fn of_command_bus(e: CommandBusError) -> (r: Self)
        ensures
            r matches TacitFfiError::CommandBus(t) && t@ == command_error_text(e),
    {
        TacitFfiError::CommandBus(e.message())
    }

    /// The text shown for this error.
    pub fn message(&self) -> (r: String)
        ensures
            r@ == ffi_error_text(*self),
    {
        match self {
            TacitFfiError::DocNotFound(s) => join2("文档不存在: ", s.as_str()),
            TacitFfiError::BlockNotFound { doc_id, block_id } => {
                let mut out = "block 不存在: doc=".to_owned();
                out.append(doc_id.as_str());
                out.append(" block=");
                out.append(block_id.as_str());
                out
            },
            TacitFfiError::InvalidFrontier(s) => join2("frontier 非法: ", s.as_str()),
            TacitFfiError::Store(s) => join2("存储错误: ", s.as_str()),
            TacitFfiError::Crdt(s) => join2("CRDT 错误: ", s.as_str()),
            TacitFfiError::Transport(s) => join2("传输错误: ", s.as_str()),
            TacitFfiError::Crypto(s) => join2("加密错误: ", s.as_str()),
            TacitFfiError::Sync(s) => join2("同步错误: ", s.as_str()),
            TacitFfiError::Config(s) => join2("配置错误: ", s.as_str()),
            TacitFfiError::Io(s) => join2("IO 错误: ", s.as_str()),
            TacitFfiError::Internal(s) => join2("内部错误: ", s.as_str()),
            TacitFfiError::CommandBus(s) => join2("命令总线错误: ", s.as_str()),
        }
    }
}

/// The platform sees an error of the same kind, which is shown with the same text; an error that it has no
/// kind for is shown as an internal one.
pub proof fn law_platform_sees_the_same_error(
    e: CoreError,
    r: TacitFfiError,
    here: String,
    there: String,
)
    requires
        call_ensures(TacitFfiError::of_core, (e,), r),
        call_ensures(CoreError::message, (&e,), here),
        call_ensures(TacitFfiError::message, (&r,), there),
    ensures
        !(e is PeerNotFound || e is Serialize || e is Deserialize) ==> there@ == here@,
        e is Serialize || e is Deserialize ==> there@ == "内部错误: "@ + here@,
        e matches CoreError::PeerNotFound(s) ==> there@ == "内部错误: "@ + s@,
        e is PeerNotFound || e is Serialize || e is Deserialize || e is Internal <==> r is Internal,
        e is DocNotFound <==> r is DocNotFound,
        e is BlockNotFound <==> r is BlockNotFound,
        e is InvalidFrontier <==> r is InvalidFrontier,
        e is Store <==> r is Store,
        e is Crdt <==> r is Crdt,
        e is Transport <==> r is Transport,
        e is Crypto <==> r is Crypto,
        e is Sync <==> r is Sync,
        e is Config <==> r is Config,
        e is Io <==> r is Io,
        !(r is CommandBus),
{
}

/// A command that was not taken is seen as that, with the text of its error.
pub proof fn law_platform_sees_refused_commands(
    e: CommandBusError,
    r: TacitFfiError,
    text: String,
)
    requires
        call_ensures(TacitFfiError::of_command_bus, (e,), r),
        call_ensures(CommandBusError::message, (&e,), text),
    ensures
        r matches TacitFfiError::CommandBus(t) && t@ == text@,
{
}

} // verus!
