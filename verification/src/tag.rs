//! The simulated remote value handle.
//!
//! A real deployment binds a handle to one addressable value on an external
//! controller through a native layer; that wire protocol is out of scope
//! here.  This handle is self-contained instead: a descriptor whose `make`
//! is `system` names a local debug value that starts at a documented default
//! and echoes writes, while any other descriptor stands for a remote target
//! that this build cannot reach, so its handle reports not-connected
//! forever.  Every pooling, exclusion and ordering rule of the crate is
//! exercised against this handle exactly as it would be against a live one.

use vstd::prelude::*;

use crate::status::ERR_NOT_CONNECTED;
use crate::status::ERR_OUT_OF_BOUNDS;
use crate::status::Status;
use crate::status::STATUS_OK;
use crate::status::STATUS_PENDING;

verus! {

/// The documented initial value of the simulated debug handle's one cell.
pub const DEBUG_DEFAULT: i32 = 4;

/// Character count of the descriptor prefix that names the simulated
/// system-made debug handle.
pub const SYSTEM_PREFIX_LEN: usize = 11;

/// Mathematical model of a handle: whether its target can be reached,
/// whether it is currently connected, and the cells it stores.
#[verifier::ext_equal]
pub struct TagModel {
    pub reachable: bool,
    pub connected: bool,
    pub cells: Seq<i32>,
}

impl TagModel {
    /// A handle is well formed when it is only ever connected to a
    /// reachable target and owns at least one cell.
    pub open spec fn wf(self) -> bool {
        (self.connected ==> self.reachable) && self.cells.len() >= 1
    }
}

/// The model of a freshly created handle: disconnected, one cell holding
/// the documented default.
pub open spec fn tag_created(reachable: bool) -> TagModel {
    TagModel { reachable, connected: false, cells: seq![DEBUG_DEFAULT] }
}

/// The model of a handle after one connect attempt: a reachable handle
/// becomes (or stays) connected, an unreachable one stays disconnected.
pub open spec fn tag_after_connect(t: TagModel) -> TagModel {
    TagModel { connected: t.reachable, ..t }
}

/// The status a handle reports: success when connected, pending otherwise
/// (an unreachable target is merely not connected yet; the background
/// connect loop never turns that into a fatal report).
pub open spec fn tag_status(t: TagModel) -> Status {
    if t.connected {
        Status { code: STATUS_OK }
    } else {
        Status { code: STATUS_PENDING }
    }
}

/// What a read returns: the stored cell when the handle is connected and
/// the offset is in range, and the exact error status otherwise.
pub open spec fn tag_read_result(t: TagModel, offset: int) -> Result<i32, Status> {
    if !t.connected {
        Result::Err(Status { code: ERR_NOT_CONNECTED })
    } else if offset >= t.cells.len() {
        Result::Err(Status { code: ERR_OUT_OF_BOUNDS })
    } else {
        Result::Ok(t.cells[offset])
    }
}

/// Whether a write succeeds: it needs a connected handle and an in-range
/// offset, exactly like a read.
pub open spec fn tag_write_ok(t: TagModel, offset: int) -> bool {
    t.connected && offset < t.cells.len()
}

/// The error status a failed write reports.
pub open spec fn tag_write_err(t: TagModel, offset: int) -> Status {
    if !t.connected {
        Status { code: ERR_NOT_CONNECTED }
    } else {
        Status { code: ERR_OUT_OF_BOUNDS }
    }
}

/// The model of a handle after a write: the addressed cell holds the new
/// value, everything else is unchanged.  A failed write changes nothing.
pub open spec fn tag_after_write(t: TagModel, offset: int, value: i32) -> TagModel {
    if tag_write_ok(t, offset) {
        TagModel { cells: t.cells.update(offset, value), ..t }
    } else {
        t
    }
}

/// A descriptor names the simulated system-made handle exactly when it
/// starts with `make=system`.
pub open spec fn spec_is_system(path: Seq<char>) -> bool {
    path.len() >= SYSTEM_PREFIX_LEN && path.subrange(0, SYSTEM_PREFIX_LEN as int)
        == "make=system"@
}

/// Decides whether a descriptor names the simulated system-made handle.
pub fn is_system_path(path: &str) -> (r: bool)
    ensures
        r == spec_is_system(path@),
{
    let n = path.unicode_len();
    let pat = "make=system";
    proof {
        reveal_strlit("make=system");
    }
    if n < SYSTEM_PREFIX_LEN {
        return false;
    }
    let mut i: usize = 0;
    while i < SYSTEM_PREFIX_LEN
        invariant
            0 <= i <= SYSTEM_PREFIX_LEN,
            n == path@.len(),
            SYSTEM_PREFIX_LEN <= n,
            pat@ == "make=system"@,
            pat@.len() == SYSTEM_PREFIX_LEN,
            forall|j: int| 0 <= j < i ==> path@[j] == pat@[j],
        decreases SYSTEM_PREFIX_LEN - i,
    {
        if path.get_char(i) != pat.get_char(i) {
            proof {
                assert(path@.subrange(0, SYSTEM_PREFIX_LEN as int)[i as int] != pat@[i as int]);
            }
            return false;
        }
        i += 1;
    }
    proof {
        assert(path@.subrange(0, SYSTEM_PREFIX_LEN as int) =~= pat@);
    }
    true
}

/// A remote value handle, simulated in this build.
///
/// The fields follow `TagModel` one for one; the model is the view.
pub struct RawTag {
    reachable: bool,
    connected: bool,
    cells: Vec<i32>,
}

impl View for RawTag {
    type V = TagModel;

    closed spec fn view(&self) -> TagModel {
        TagModel {
            reachable: self.reachable,
            connected: self.connected,
            cells: self.cells@,
        }
    }
}

impl RawTag {
    /// Creates a handle for `path`.
    ///
    /// Creation itself never blocks and never fails: the handle starts
    /// disconnected and only a later connect attempt decides reachability.
    pub fn new(path: &str) -> (t: RawTag)
        ensures
            t@ == tag_created(spec_is_system(path@)),
            t@.wf(),
    {
        let reachable = is_system_path(path);
        let t = RawTag { reachable, connected: false, cells: vec![DEBUG_DEFAULT] };
        proof {
            assert(t@.cells =~= seq![DEBUG_DEFAULT]);
        }
        t
    }

    /// One blocking connect attempt: succeeds exactly when the target is
    /// reachable, and is harmless on an already connected handle.
    pub fn connect_attempt(&mut self) -> (connected: bool)
        requires
            old(self)@.wf(),
        ensures
            final(self)@ == tag_after_connect(old(self)@),
            final(self)@.wf(),
            connected == final(self)@.connected,
    {
        self.connected = self.reachable;
        self.connected
    }

    /// A handle carrying exactly the same state; used when the registry
    /// hands a removed handle back to its caller.
    pub fn duplicate(&self) -> (t: RawTag)
        ensures
            t@ == self@,
    {
        let mut cells: Vec<i32> = Vec::new();
        let n = self.cells.len();
        let mut i: usize = 0;
        while i < n
            invariant
                0 <= i <= n,
                n == self.cells.len(),
                cells@ == self.cells@.subrange(0, i as int),
            decreases n - i,
        {
            cells.push(self.cells[i]);
            proof {
                assert(cells@ =~= self.cells@.subrange(0, i + 1 as int));
            }
            i += 1;
        }
        proof {
            assert(cells@ =~= self.cells@);
        }
        let t = RawTag { reachable: self.reachable, connected: self.connected, cells };
        proof {
            assert(t@ =~= self@);
        }
        t
    }

    /// The status the handle currently reports.
    pub fn status(&self) -> (s: Status)
        ensures
            s == tag_status(self@),
    {
        if self.connected {
            Status::ok()
        } else {
            Status::pending()
        }
    }

    /// Reads the cell at `offset`, or reports exactly why it cannot.
    pub fn read(&self, offset: usize) -> (r: Result<i32, Status>)
        ensures
            r == tag_read_result(self@, offset as int),
    {
        if !self.connected {
            Result::Err(Status::from_code(ERR_NOT_CONNECTED))
        } else if offset >= self.cells.len() {
            Result::Err(Status::from_code(ERR_OUT_OF_BOUNDS))
        } else {
            Result::Ok(self.cells[offset])
        }
    }

    /// Writes `value` to the cell at `offset`; the handle echoes it back to
    /// every later read.  A failed write leaves the handle unchanged and
    /// reports exactly why.
    pub fn write(&mut self, offset: usize, value: i32) -> (r: Result<(), Status>)
        requires
            old(self)@.wf(),
        ensures
            final(self)@ == tag_after_write(old(self)@, offset as int, value),
            final(self)@.wf(),
            r is Ok <==> tag_write_ok(old(self)@, offset as int),
            r is Err ==> r == (Result::<(), Status>::Err(tag_write_err(
                old(self)@,
                offset as int,
            ))),
    {
        if !self.connected {
            Result::Err(Status::from_code(ERR_NOT_CONNECTED))
        } else if offset >= self.cells.len() {
            Result::Err(Status::from_code(ERR_OUT_OF_BOUNDS))
        } else {
            self.cells[offset] = value;
            Result::Ok(())
        }
    }
}

} // verus!
