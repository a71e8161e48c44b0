use vstd::prelude::*;

use vstd::string::*;

use crate::error::RustineErrorKind;

verus! {

/// Decide whether an output path may be written: an existing file is only
/// overwritten when the caller forces it. The caller reports whether the
/// path exists; looking at the file system is its business.
pub fn can_write(path: &str, exists: bool, force: bool) -> (r: Result<(), RustineErrorKind>)
    ensures
        r is Ok <==> (force || !exists),
        r matches Err(e) ==> (e matches RustineErrorKind::FileExists { path: p } && p@ == path@),
{
    if !force && exists {
        return Err(RustineErrorKind::FileExists { path: path.to_owned() });
    }
    Ok(())
}

} // verus!
