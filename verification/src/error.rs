//! The library's error type.

use vstd::prelude::*;

use crate::text::join2;
use vstd::string::*;

verus! {

/// What can go wrong, each kind with a text that says what happened.
#[derive(Debug)]
pub enum CoreError {
    DocNotFound(String),
    BlockNotFound { doc_id: String, block_id: String },
    InvalidFrontier(String),
    PeerNotFound(String),
    Serialize(String),
    Deserialize(String),
    Store(String),
    Crdt(String),
    Transport(String),
    Crypto(String),
    Sync(String),
    Config(String),
    Io(String),
    Internal(String),
}

/// The result of an operation of the library.
pub type CoreResult<T> = Result<T, CoreError>;

/// The text shown for an error.
pub open spec fn error_text(e: CoreError) -> Seq<char> {
    match e {
        CoreError::DocNotFound(s) => "文档不存在: "@ + s@,
        CoreError::BlockNotFound { doc_id, block_id } => "block 不存在: doc="@ + doc_id@
            + " block="@ + block_id@,
        CoreError::InvalidFrontier(s) => "frontier 非法: "@ + s@,
        CoreError::PeerNotFound(s) => "peer 不存在: "@ + s@,
        CoreError::Serialize(s) => "序列化失败: "@ + s@,
        CoreError::Deserialize(s) => "反序列化失败: "@ + s@,
        CoreError::Store(s) => "存储错误: "@ + s@,
        CoreError::Crdt(s) => "CRDT 错误: "@ + s@,
        CoreError::Transport(s) => "传输错误: "@ + s@,
        CoreError::Crypto(s) => "加密错误: "@ + s@,
        CoreError::Sync(s) => "同步错误: "@ + s@,
        CoreError::Config(s) => "配置错误: "@ + s@,
        CoreError::Io(s) => "IO 错误: "@ + s@,
        CoreError::Internal(s) => "内部错误: "@ + s@,
    }
}

/// Whether `e` is a cryptographic error with text `m`.
pub open spec fn is_crypto_error(e: CoreError, m: Seq<char>) -> bool {
    e matches CoreError::Crypto(t) && t@ == m
}

/// Whether `e` is a cryptographic error whose text begins with `prefix`.
pub open spec fn crypto_refusal(e: CoreError, prefix: Seq<char>) -> bool {
    e matches CoreError::Crypto(t) && prefix.is_prefix_of(t@)
}

/// A cryptographic error: what was tried, and what is said of it.
pub(crate) fn crypto_error(prefix: &str, detail: &str) -> (r: CoreError)
    ensures
        is_crypto_error(r, prefix@ + detail@),
        crypto_refusal(r, prefix@),
{
    let text = join2(prefix, detail);
    assert(prefix@.is_prefix_of(text@));
    CoreError::Crypto(text)
}

/// Whether `e` is a document error whose text begins with `prefix`.
pub open spec fn is_crdt_error(e: CoreError, prefix: Seq<char>) -> bool {
    e matches CoreError::Crdt(t) && prefix.is_prefix_of(t@)
}

/// A document error: what was tried, and what is said of it.
pub(crate) fn crdt_error(prefix: &str, detail: &str) -> (r: CoreError)
    ensures
        is_crdt_error(r, prefix@),
{
    let text = join2(prefix, detail);
    assert(prefix@.is_prefix_of(text@));
    CoreError::Crdt(text)
}

impl CoreError {
    /// The text shown for this error.
    pub fn message(&self) -> (r: String)
        ensures
            r@ == error_text(*self),
    {
        match self {
            CoreError::DocNotFound(s) => join2("文档不存在: ", s.as_str()),
            CoreError::BlockNotFound { doc_id, block_id } => {
                let mut out = "block 不存在: doc=".to_owned();
                out.append(doc_id.as_str());
                out.append(" block=");
                out.append(block_id.as_str());
                out
            },
            CoreError::InvalidFrontier(s) => join2("frontier 非法: ", s.as_str()),
            CoreError::PeerNotFound(s) => join2("peer 不存在: ", s.as_str()),
            CoreError::Serialize(s) => join2("序列化失败: ", s.as_str()),
            CoreError::Deserialize(s) => join2("反序列化失败: ", s.as_str()),
            CoreError::Store(s) => join2("存储错误: ", s.as_str()),
            CoreError::Crdt(s) => join2("CRDT 错误: ", s.as_str()),
            CoreError::Transport(s) => join2("传输错误: ", s.as_str()),
            CoreError::Crypto(s) => join2("加密错误: ", s.as_str()),
            CoreError::Sync(s) => join2("同步错误: ", s.as_str()),
            CoreError::Config(s) => join2("配置错误: ", s.as_str()),
            CoreError::Io(s) => join2("IO 错误: ", s.as_str()),
            CoreError::Internal(s) => join2("内部错误: ", s.as_str()),
        }
    }
}

/// The text that is shown for an error ends with what the error says.
pub proof fn law_shown_error_says_what_happened(e: &CoreError, r: String)
    requires
        call_ensures(CoreError::message, (e,), r),
    ensures
        ({
            let detail = match *e {
                CoreError::DocNotFound(s) => s@,
                CoreError::BlockNotFound { block_id, .. } => block_id@,
                CoreError::InvalidFrontier(s) => s@,
                CoreError::PeerNotFound(s) => s@,
                CoreError::Serialize(s) => s@,
                CoreError::Deserialize(s) => s@,
                CoreError::Store(s) => s@,
                CoreError::Crdt(s) => s@,
                CoreError::Transport(s) => s@,
                CoreError::Crypto(s) => s@,
                CoreError::Sync(s) => s@,
                CoreError::Config(s) => s@,
                CoreError::Io(s) => s@,
                CoreError::Internal(s) => s@,
            };
            &&& detail.len() <= r@.len()
            &&& r@.skip(r@.len() - detail.len()) == detail
        }),
{
    let text = error_text(*e);
    match *e {
        CoreError::DocNotFound(s) => {
            assert(text.skip(text.len() - s@.len()) =~= s@);
        },
        CoreError::BlockNotFound { doc_id, block_id } => {
            assert(text.skip(text.len() - block_id@.len()) =~= block_id@);
        },
        CoreError::InvalidFrontier(s) => {
            assert(text.skip(text.len() - s@.len()) =~= s@);
        },
        CoreError::PeerNotFound(s) => {
            assert(text.skip(text.len() - s@.len()) =~= s@);
        },
        CoreError::Serialize(s) => {
            assert(text.skip(text.len() - s@.len()) =~= s@);
        },
        CoreError::Deserialize(s) => {
            assert(text.skip(text.len() - s@.len()) =~= s@);
        },
        CoreError::Store(s) => {
            assert(text.skip(text.len() - s@.len()) =~= s@);
        },
        CoreError::Crdt(s) => {
            assert(text.skip(text.len() - s@.len()) =~= s@);
        },
        CoreError::Transport(s) => {
            assert(text.skip(text.len() - s@.len()) =~= s@);
        },
        CoreError::Crypto(s) => {
            assert(text.skip(text.len() - s@.len()) =~= s@);
        },
        CoreError::Sync(s) => {
            assert(text.skip(text.len() - s@.len()) =~= s@);
        },
        CoreError::Config(s) => {
            assert(text.skip(text.len() - s@.len()) =~= s@);
        },
        CoreError::Io(s) => {
            assert(text.skip(text.len() - s@.len()) =~= s@);
        },
        CoreError::Internal(s) => {
            assert(text.skip(text.len() - s@.len()) =~= s@);
        },
    }
}

/// The text that is shown for an error names its kind in front of what the error says.
pub proof fn law_shown_error_names_its_kind(e: &CoreError, r: String)
    requires
        call_ensures(CoreError::message, (e,), r),
    ensures
        *e matches CoreError::DocNotFound(s) ==> r@ == "文档不存在: "@ + s@,
        *e matches CoreError::BlockNotFound { doc_id, block_id } ==> r@ == "block 不存在: doc="@
            + doc_id@ + " block="@ + block_id@,
        *e matches CoreError::InvalidFrontier(s) ==> r@ == "frontier 非法: "@ + s@,
        *e matches CoreError::PeerNotFound(s) ==> r@ == "peer 不存在: "@ + s@,
        *e matches CoreError::Serialize(s) ==> r@ == "序列化失败: "@ + s@,
        *e matches CoreError::Deserialize(s) ==> r@ == "反序列化失败: "@ + s@,
        *e matches CoreError::Store(s) ==> r@ == "存储错误: "@ + s@,
        *e matches CoreError::Crdt(s) ==> r@ == "CRDT 错误: "@ + s@,
        *e matches CoreError::Transport(s) ==> r@ == "传输错误: "@ + s@,
        *e matches CoreError::Crypto(s) ==> r@ == "加密错误: "@ + s@,
        *e matches CoreError::Sync(s) ==> r@ == "同步错误: "@ + s@,
        *e matches CoreError::Config(s) ==> r@ == "配置错误: "@ + s@,
        *e matches CoreError::Io(s) ==> r@ == "IO 错误: "@ + s@,
        *e matches CoreError::Internal(s) ==> r@ == "内部错误: "@ + s@,
{
}

} // verus!
