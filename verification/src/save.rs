//! The decisions around saving a document through a write callback.

use crate::error::{result_of_flag, handle_fail, PDFiumError};
use vstd::prelude::*;

verus! {

/// The flags handed to the engine's save routine: always none.
pub const SAVE_FLAGS: u32 = 0;

/// The version tag of the callback structure.
pub const FILE_WRITE_VERSION: i32 = 1;

/// What the write callback answers the engine: 1 where the block was written
/// in full, 0 where it was not.
pub fn write_block_status(written: bool) -> (res: i32)
    ensures
        res == if written { 1i32 } else { 0i32 },
{
    if written {
        1
    } else {
        0
    }
}

/// Whether the sink is flushed after the save routine returned `ok`: only
/// after a save that succeeded.
pub fn flush_after_save(ok: i32) -> (res: bool)
    ensures
        res == (ok == 1),
{
    ok == 1
}

/// The result of a save, given what the save routine returned, whether the
/// flush that followed a successful save failed, and the last-error code.
pub open spec fn result_of_save(ok: i32, flush_failed: bool, code: u32) -> Result<
    (),
    PDFiumError,
> {
    if ok == 1 && flush_failed {
        Err(PDFiumError::FileError)
    } else {
        result_of_flag(ok, code)
    }
}

/// Decides the result of a save. A flush that failed after a successful save
/// is a `FileError`; `flush_failed` is not read where the save itself failed,
/// since nothing is flushed then.
pub fn save_result(ok: i32, flush_failed: bool, code: u32) -> (res: Result<(), PDFiumError>)
    ensures
        res == result_of_save(ok, flush_failed, code),
        res is Ok <==> ok == 1 && !flush_failed,
{
    if ok == 1 && flush_failed {
        Err(PDFiumError::FileError)
    } else {
        handle_fail(ok, code)
    }
}

} // verus!
