//! The flat face of the client, for a caller in another language.
//!
//! A foreign caller cannot take nested structures, so every result is
//! flattened: an item kind becomes a byte, a directory listing becomes
//! parallel arrays. A call that was not delivered becomes an error text.
//!
//! A function here takes what became of the call: `None` where there was no
//! connection to make it on, `Some(Err(text))` where it was made and failed,
//! `Some(Ok(result))` where the server answered. Whoever owns the
//! connection makes the call and hands over its outcome. The connection
//! itself is held by a [`VfsHandle`]: one handle for one connection,
//! connected once and torn down explicitly.

use vstd::prelude::*;
use crate::proto::{
    CreateResult, GetAttributesResult, ItemType, LookupResult, ReadDirResult, ReadResult,
    VfsResult, WriteResult,
};

verus! {

/// Flat form of a lookup result.
#[derive(Debug, Clone)]
pub struct FfiLookupResult {
    pub item_id: u64,
    /// 0 for a file, 1 for a directory, 2 for a symlink.
    pub item_type: u8,
    pub error: i32,
}

/// Flat form of the attributes of an item, with the outcome beside them.
#[derive(Debug, Clone)]
pub struct FfiItemAttributes {
    pub item_id: u64,
    /// 0 for a file, 1 for a directory, 2 for a symlink.
    pub item_type: u8,
    pub size: u64,
    pub modified_time: u64,
    pub created_time: u64,
    pub mode: u32,
    pub error: i32,
}

/// Flat form of one page of a directory listing: entry `i` is made of
/// `names[i]`, `item_ids[i]` and `item_types[i]`.
#[derive(Debug, Clone)]
pub struct FfiReadDirResult {
    pub names: Vec<String>,
    pub item_ids: Vec<u64>,
    pub item_types: Vec<u8>,
    pub next_cursor: u64,
    pub error: i32,
}

/// Flat form of a read result.
#[derive(Debug, Clone)]
pub struct FfiReadResult {
    pub data: Vec<u8>,
    pub error: i32,
}

/// Flat form of a write result.
#[derive(Debug, Clone)]
pub struct FfiWriteResult {
    pub bytes_written: u64,
    pub error: i32,
}

/// Flat form of a create result.
#[derive(Debug, Clone)]
pub struct FfiCreateResult {
    pub item_id: u64,
    pub error: i32,
}

/// Flat form of a bare outcome.
#[derive(Debug, Clone)]
pub struct FfiVfsResult {
    pub error: i32,
}

/// The text reported for a call without a connection.
pub open spec fn not_connected() -> Seq<char> {
    "Not connected"@
}

/// The text reported for a second connect on one handle.
pub open spec fn already_connected() -> Seq<char> {
    "Already connected"@
}

/// The byte that stands for an item kind.
pub open spec fn kind_byte(t: ItemType) -> u8 {
    match t {
        ItemType::File => 0,
        ItemType::Directory => 1,
        ItemType::Symlink => 2,
    }
}

/// The item kind that a byte stands for. A byte that stands for none is
/// read as a file.
pub open spec fn byte_kind(v: u8) -> ItemType {
    if v == 1 {
        ItemType::Directory
    } else if v == 2 {
        ItemType::Symlink
    } else {
        ItemType::File
    }
}

/// Sum of two numbers whose sum is a 32-bit number.
pub fn add(a: i32, b: i32) -> (sum: i32)
    requires
        i32::MIN <= a + b <= i32::MAX,
    ensures
        sum == a + b,
{
    a + b
}

/// The byte that stands for an item kind.
pub fn item_type_to_u8(t: ItemType) -> (v: u8)
    ensures
        v == kind_byte(t),
        byte_kind(v) == t,
{
    match t {
        ItemType::File => 0,
        ItemType::Directory => 1,
        ItemType::Symlink => 2,
    }
}

/// The item kind that a byte stands for; a file where it stands for none.
pub fn u8_to_item_type(v: u8) -> (t: ItemType)
    ensures
        t == byte_kind(v),
{
    match v {
        0 => ItemType::File,
        1 => ItemType::Directory,
        2 => ItemType::Symlink,
        _ => ItemType::File,
    }
}

/// Turning a kind into its byte and back gives the kind, and the bytes 0,
/// 1 and 2 are the only ones that come back from their kind unchanged.
pub proof fn kind_byte_round_trip(t: ItemType, v: u8)
    ensures
        byte_kind(kind_byte(t)) == t,
        kind_byte(byte_kind(v)) == v <==> v <= 2,
{
}

/// One connection, held for a foreign caller. It is connected at most
/// once at a time and torn down explicitly.
pub struct VfsHandle<C> {
    client: Option<C>,
}

impl<C> VfsHandle<C> {
    /// The client the handle holds, if it is connected.
    pub closed spec fn held(&self) -> Option<C> {
        self.client
    }

    /// A handle without a connection.
    pub fn new() -> (r: VfsHandle<C>)
        ensures
            r.held() is None,
    {
        VfsHandle { client: None }
    }

    /// Whether the handle holds a connection.
    pub fn is_connected(&self) -> (b: bool)
        ensures
            b == self.held() is Some,
    {
        self.client.is_some()
    }

    /// The client to make a call on, if the handle is connected.
    pub fn client(&self) -> (r: Option<&C>)
        ensures
            match r {
                Some(c) => self.held() == Some(*c),
                None => self.held() is None,
            },
    {
        self.client.as_ref()
    }
}

/// Takes up the connection that was dialled. A handle that is connected
/// keeps its connection and reports that it is; a dial that failed leaves
/// the handle without one and reports why.
pub fn vfs_connect<C>(handle: &mut VfsHandle<C>, dialled: Result<C, String>) -> (r: Result<
    (),
    String,
>)
    ensures
        match (old(handle).held(), dialled) {
            (Some(_), _) => r is Err && r->Err_0@ == already_connected() && final(handle).held()
                == old(handle).held(),
            (None, Ok(c)) => r is Ok && final(handle).held() == Some(c),
            (None, Err(e)) => r == Err::<(), String>(e) && final(handle).held() is None,
        },
{
    if handle.client.is_some() {
        return Err("Already connected".to_string());
    }
    match dialled {
        Ok(c) => {
            handle.client = Some(c);
            Ok(())
        },
        Err(e) => Err(e),
    }
}

/// Tears the connection down: the handle gives up its client, which the
/// caller closes, and can be connected again.
pub fn vfs_disconnect<C>(handle: &mut VfsHandle<C>) -> (r: Option<C>)
    ensures
        r == old(handle).held(),
        final(handle).held() is None,
{
    handle.client.take()
}

/// The answer to `ping`.
pub fn vfs_ping(reply: Option<Result<String, String>>) -> (r: Result<String, String>)
    ensures
        match reply {
            Some(answer) => r == answer,
            None => r is Err && r->Err_0@ == not_connected(),
        },
{
    match reply {
        Some(answer) => answer,
        None => Err("Not connected".to_string()),
    }
}

/// The flat form of what `lookup` answered.
pub fn vfs_lookup(reply: Option<Result<LookupResult, String>>) -> (r: Result<
    FfiLookupResult,
    String,
>)
    ensures
        match reply {
            Some(Ok(v)) => r == Ok::<FfiLookupResult, String>(
                FfiLookupResult {
                    item_id: v.item_id,
                    item_type: kind_byte(v.item_type),
                    error: v.error,
                },
            ),
            Some(Err(e)) => r == Err::<FfiLookupResult, String>(e),
            None => r is Err && r->Err_0@ == not_connected(),
        },
{
    match reply {
        Some(Ok(result)) => Ok(
            FfiLookupResult {
                item_id: result.item_id,
                item_type: item_type_to_u8(result.item_type),
                error: result.error,
            },
        ),
        Some(Err(e)) => Err(e),
        None => Err("Not connected".to_string()),
    }
}

/// The flat form of what `get_attributes` answered.
pub fn vfs_get_attributes(reply: Option<Result<GetAttributesResult, String>>) -> (r: Result<
    FfiItemAttributes,
    String,
>)
    ensures
        match reply {
            Some(Ok(v)) => r == Ok::<FfiItemAttributes, String>(
                FfiItemAttributes {
                    item_id: v.attrs.item_id,
                    item_type: kind_byte(v.attrs.item_type),
                    size: v.attrs.size,
                    modified_time: v.attrs.modified_time,
                    created_time: v.attrs.created_time,
                    mode: v.attrs.mode,
                    error: v.error,
                },
            ),
            Some(Err(e)) => r == Err::<FfiItemAttributes, String>(e),
            None => r is Err && r->Err_0@ == not_connected(),
        },
{
    match reply {
        Some(Ok(result)) => Ok(
            FfiItemAttributes {
                item_id: result.attrs.item_id,
                item_type: item_type_to_u8(result.attrs.item_type),
                size: result.attrs.size,
                modified_time: result.attrs.modified_time,
                created_time: result.attrs.created_time,
                mode: result.attrs.mode,
                error: result.error,
            },
        ),
        Some(Err(e)) => Err(e),
        None => Err("Not connected".to_string()),
    }
}

/// Whether `flat` is the flat form of `page`: the three arrays are as long
/// as the page, and hold the names, the identifiers and the kind bytes of its
/// entries in order.
pub open spec fn flattens(flat: FfiReadDirResult, page: ReadDirResult) -> bool {
    &&& flat.next_cursor == page.next_cursor
    &&& flat.error == page.error
    &&& flat.names@.len() == page.entries@.len()
    &&& flat.item_ids@.len() == page.entries@.len()
    &&& flat.item_types@.len() == page.entries@.len()
    &&& forall|i: int|
        0 <= i < page.entries@.len() ==> {
            &&& (#[trigger] flat.names@[i])@ == page.entries@[i].name@
            &&& flat.item_ids@[i] == page.entries@[i].item_id
            &&& flat.item_types@[i] == kind_byte(page.entries@[i].item_type)
        }
}

/// The flat form of what `read_dir` answered.
pub fn vfs_read_dir(reply: Option<Result<ReadDirResult, String>>) -> (r: Result<
    FfiReadDirResult,
    String,
>)
    ensures
        match reply {
            Some(Ok(v)) => r is Ok && flattens(r->Ok_0, v),
            Some(Err(e)) => r == Err::<FfiReadDirResult, String>(e),
            None => r is Err && r->Err_0@ == not_connected(),
        },
{
    match reply {
        Some(Ok(result)) => {
            let mut names: Vec<String> = Vec::new();
            let mut item_ids: Vec<u64> = Vec::new();
            let mut item_types: Vec<u8> = Vec::new();
            let mut k: usize = 0;
            while k < result.entries.len()
                invariant
                    k <= result.entries@.len(),
                    names@.len() == k,
                    item_ids@.len() == k,
                    item_types@.len() == k,
                    forall|i: int| 0 <= i < k ==> (#[trigger] names@[i])@ == result.entries@[i].name@,
                    forall|i: int| 0 <= i < k ==> #[trigger] item_ids@[i] == result.entries@[i].item_id,
                    forall|i: int|
                        0 <= i < k ==> #[trigger] item_types@[i] == kind_byte(
                            result.entries@[i].item_type,
                        ),
                decreases result.entries@.len() - k,
            {
                names.push(result.entries[k].name.clone());
                item_ids.push(result.entries[k].item_id);
                item_types.push(item_type_to_u8(result.entries[k].item_type));
                k += 1;
            }
            Ok(
                FfiReadDirResult {
                    names,
                    item_ids,
                    item_types,
                    next_cursor: result.next_cursor,
                    error: result.error,
                },
            )
        },
        Some(Err(e)) => Err(e),
        None => Err("Not connected".to_string()),
    }
}

/// The flat form of what `read` answered.
pub fn vfs_read(reply: Option<Result<ReadResult, String>>) -> (r: Result<FfiReadResult, String>)
    ensures
        match reply {
            Some(Ok(v)) => r is Ok && r->Ok_0.data == v.data && r->Ok_0.error == v.error,
            Some(Err(e)) => r == Err::<FfiReadResult, String>(e),
            None => r is Err && r->Err_0@ == not_connected(),
        },
{
    match reply {
        Some(Ok(result)) => Ok(FfiReadResult { data: result.data, error: result.error }),
        Some(Err(e)) => Err(e),
        None => Err("Not connected".to_string()),
    }
}

/// The flat form of what `write` answered.
pub fn vfs_write(reply: Option<Result<WriteResult, String>>) -> (r: Result<
    FfiWriteResult,
    String,
>)
    ensures
        match reply {
            Some(Ok(v)) => r == Ok::<FfiWriteResult, String>(
                FfiWriteResult { bytes_written: v.bytes_written, error: v.error },
            ),
            Some(Err(e)) => r == Err::<FfiWriteResult, String>(e),
            None => r is Err && r->Err_0@ == not_connected(),
        },
{
    match reply {
        Some(Ok(result)) => Ok(
            FfiWriteResult { bytes_written: result.bytes_written, error: result.error },
        ),
        Some(Err(e)) => Err(e),
        None => Err("Not connected".to_string()),
    }
}

/// The flat form of what `create` answered.
pub fn vfs_create(reply: Option<Result<CreateResult, String>>) -> (r: Result<
    FfiCreateResult,
    String,
>)
    ensures
        match reply {
            Some(Ok(v)) => r == Ok::<FfiCreateResult, String>(
                FfiCreateResult { item_id: v.item_id, error: v.error },
            ),
            Some(Err(e)) => r == Err::<FfiCreateResult, String>(e),
            None => r is Err && r->Err_0@ == not_connected(),
        },
{
    match reply {
        Some(Ok(result)) => Ok(FfiCreateResult { item_id: result.item_id, error: result.error }),
        Some(Err(e)) => Err(e),
        None => Err("Not connected".to_string()),
    }
}

/// The flat form of what `delete` answered.
pub fn vfs_delete(reply: Option<Result<VfsResult, String>>) -> (r: Result<FfiVfsResult, String>)
    ensures
        match reply {
            Some(Ok(v)) => r == Ok::<FfiVfsResult, String>(FfiVfsResult { error: v.error }),
            Some(Err(e)) => r == Err::<FfiVfsResult, String>(e),
            None => r is Err && r->Err_0@ == not_connected(),
        },
{
    match reply {
        Some(Ok(result)) => Ok(FfiVfsResult { error: result.error }),
        Some(Err(e)) => Err(e),
        None => Err("Not connected".to_string()),
    }
}

/// The flat form of what `rename` answered.
pub fn vfs_rename(reply: Option<Result<VfsResult, String>>) -> (r: Result<FfiVfsResult, String>)
    ensures
        match reply {
            Some(Ok(v)) => r == Ok::<FfiVfsResult, String>(FfiVfsResult { error: v.error }),
            Some(Err(e)) => r == Err::<FfiVfsResult, String>(e),
            None => r is Err && r->Err_0@ == not_connected(),
        },
{
    match reply {
        Some(Ok(result)) => Ok(FfiVfsResult { error: result.error }),
        Some(Err(e)) => Err(e),
        None => Err("Not connected".to_string()),
    }
}

} // verus!
