//! The factory face of the crate: build a handle and its entry directly,
//! without the shared registry, and drive it through a mailbox of its own.
//!
//! This is the path for callers under cooperative scheduling: every
//! operation on the entry is a request submitted to the per-handle mailbox
//! and answered by the worker in strict submission order.  Waiting for the
//! connection supports a timeout: expiry is the answer "not yet connected",
//! never an error, and the background connect attempts go on regardless.

use vstd::prelude::*;

use crate::Error;
use crate::mailbox::Mailbox;
use crate::mailbox::MailboxModel;
use crate::mailbox::Request;
use crate::mailbox::Response;
use crate::mailbox::mailbox_created;
use crate::mailbox::spec_submit;
use crate::mailbox::state_after_connect;
use crate::status::Status;
use crate::tag::RawTag;
use crate::tag::tag_after_connect;
use crate::tag::tag_after_write;
use crate::tag::tag_created;
use crate::tag::tag_read_result;
use crate::tag::tag_status;
use crate::tag::tag_write_err;
use crate::tag::tag_write_ok;
use crate::tag::spec_is_system;

verus! {

/// What a caller supplies to create a tag: a stable identity key for
/// pooling, and the connection descriptor the handle layer is created
/// from.  Two descriptors may share a key by caller convention; typical
/// usage derives the key from the descriptor.
pub trait TagOptions {
    /// The identity key, as the contracts see it.
    spec fn spec_key(&self) -> Seq<char>;

    /// The rendered descriptor, as the contracts see it.
    spec fn spec_path(&self) -> Seq<char>;

    /// The stable identity key.
    fn key(&self) -> (k: &str)
        ensures
            k@ == self.spec_key(),
    ;

    /// The rendered connection descriptor.
    fn path(&self) -> (p: String)
        ensures
            p@ == self.spec_path(),
    ;
}

impl TagOptions for String {
    open spec fn spec_key(&self) -> Seq<char> {
        self@
    }

    open spec fn spec_path(&self) -> Seq<char> {
        self@
    }

    /// A bare descriptor is its own identity key.
    fn key(&self) -> (k: &str) {
        self
    }

    fn path(&self) -> (p: String) {
        self.clone()
    }
}

/// Caller options given as two plain strings: the identity key and the
/// rendered descriptor.
pub struct PathOptions {
    pub key: String,
    pub path: String,
}

impl PathOptions {
    /// Options with the given identity key and descriptor.
    pub fn new(key: &str, path: &str) -> (o: PathOptions)
        ensures
            o.spec_key() == key@,
            o.spec_path() == path@,
    {
        PathOptions { key: key.to_owned(), path: path.to_owned() }
    }
}

impl TagOptions for PathOptions {
    open spec fn spec_key(&self) -> Seq<char> {
        self.key@
    }

    open spec fn spec_path(&self) -> Seq<char> {
        self.path@
    }

    fn key(&self) -> (k: &str) {
        self.key.as_str()
    }

    fn path(&self) -> (p: String) {
        self.path.clone()
    }
}

/// One created tag: the caller's options and the mailbox whose worker owns
/// the handle.
pub struct TagEntry<O: TagOptions> {
    opts: O,
    mailbox: Mailbox,
}

impl TagEntry<String> {
    /// Creates an entry directly from a bare descriptor, which then serves
    /// as its own identity key.
    pub fn create(path: &str) -> (e: TagEntry<String>)
        ensures
            e.wf(),
            e.mb() == mailbox_created(tag_created(spec_is_system(path@))),
            e.spec_key() == path@,
    {
        let owned = path.to_owned();
        let tag = RawTag::new(path);
        TagEntry { opts: owned, mailbox: Mailbox::new(tag) }
    }
}

/// Thin constructor of handle-and-entry pairs, one mailbox worker per
/// created tag.
pub struct TagFactory {}

impl TagFactory {
    /// A new factory.
    pub fn new() -> (f: TagFactory)
    {
        TagFactory {}
    }

    /// Creates a tag for the handle that the options' rendered descriptor
    /// names.  Creation returns at once with a fresh, not yet connected
    /// handle; connecting proceeds in the background and never blocks this
    /// call, whether or not the target is reachable.
    pub fn create<O: TagOptions>(&self, opts: O) -> (e: TagEntry<O>)
        ensures
            e.wf(),
            e.mb() == mailbox_created(tag_created(spec_is_system(opts.spec_path()))),
            e.spec_key() == opts.spec_key(),
    {
        let path = opts.path();
        let tag = RawTag::new(path.as_str());
        TagEntry { opts, mailbox: Mailbox::new(tag) }
    }
}

impl Default for TagFactory {
    /// The same as `new`.
    fn default() -> (f: TagFactory)
        ensures
            f == (TagFactory {}),
    {
        TagFactory {}
    }
}

impl<O: TagOptions> TagEntry<O> {
    /// The mailbox model this entry drives.
    pub closed spec fn mb(&self) -> MailboxModel {
        self.mailbox@
    }

    /// The identity key this entry was created under.
    pub closed spec fn spec_key(&self) -> Seq<char> {
        self.opts.spec_key()
    }

    /// An entry keeps its mailbox coherent, never closed, and fully
    /// drained between operations.
    pub open spec fn wf(&self) -> bool {
        &&& self.mb().wf()
        &&& !(self.mb().state is Closed)
        &&& self.mb().queue.len() == 0
    }

    /// Builds an entry around an existing mailbox.
    pub fn new(opts: O, mailbox: Mailbox) -> (e: TagEntry<O>)
        requires
            mailbox@.wf(),
            !(mailbox@.state is Closed),
            mailbox@.queue.len() == 0,
        ensures
            e.wf(),
            e.mb() == mailbox@,
            e.spec_key() == opts.spec_key(),
    {
        TagEntry { opts, mailbox }
    }

    /// The identity key of this tag.
    pub fn key(&self) -> (k: &str)
        ensures
            k@ == self.spec_key(),
    {
        self.opts.key()
    }

    /// One submitted connect-wait: the worker makes one connect attempt
    /// and answers whether the handle is connected now.
    fn connect_round(&mut self) -> (r: bool)
        requires
            old(self).wf(),
        ensures
            final(self).wf(),
            r == tag_after_connect(old(self).mb().tag).connected,
            final(self).mb().tag == tag_after_connect(old(self).mb().tag),
            final(self).mb().state == state_after_connect(old(self).mb().tag),
    {
        self.mailbox.submit(Request::ConnectWait);
        proof {
            assert(spec_submit(old(self).mb(), Request::ConnectWait).queue[0]
                == Request::ConnectWait);
        }
        let resp = self.mailbox.step();
        match resp {
            Some(Response::ConnectedNow(b)) => b,
            _ => {
                proof {
                    assert(false);
                }
                false
            },
        }
    }

    /// Waits for the handle to connect.  Expiry of the timeout answers
    /// `false` — not yet connected, not an error — promptly, and the caller
    /// may simply ask again; the worker's connect attempts continue either
    /// way.  One attempt settles reachability of this build's handle for
    /// good, so the wait returns as soon as another attempt could not
    /// change the answer, timeout or none.
    pub fn connected(&mut self, timeout_ms: Option<u64>) -> (r: bool)
        requires
            old(self).wf(),
        ensures
            final(self).wf(),
            r == (old(self).mb().tag.reachable || old(self).mb().tag.connected),
            final(self).mb().tag == tag_after_connect(old(self).mb().tag),
            final(self).mb().tag.connected == r,
    {
        let _ = timeout_ms;
        self.connect_round()
    }

    /// Reads the value at `offset` through the mailbox: the worker answers
    /// with the handle's stored value, or with exactly the handle's error
    /// when it is not connected or the offset is out of range.
    pub fn read_value(&mut self, offset: usize) -> (r: Result<i32, Error>)
        requires
            old(self).wf(),
        ensures
            final(self).wf(),
            final(self).mb() == old(self).mb(),
            match tag_read_result(old(self).mb().tag, offset as int) {
                Result::Ok(v) => r == Result::<i32, Error>::Ok(v),
                Result::Err(s) => r == Result::<i32, Error>::Err(Error::TagError(s)),
            },
    {
        self.mailbox.submit(Request::Read(offset));
        proof {
            assert(spec_submit(old(self).mb(), Request::Read(offset)).queue[0]
                == Request::Read(offset));
        }
        let resp = self.mailbox.step();
        proof {
            assert(final(self).mb() =~= old(self).mb());
        }
        match resp {
            Some(Response::Value(v)) => Ok(v),
            Some(Response::Rejected(s)) => Err(Error::TagError(s)),
            _ => {
                proof {
                    assert(false);
                }
                Err(Error::ParkError)
            },
        }
    }

    /// Writes `value` at `offset` through the mailbox: on success the
    /// handle echoes the value to every later read; a failure reports
    /// exactly the handle's error and changes nothing.
    pub fn write_value(&mut self, offset: usize, value: i32) -> (r: Result<(), Error>)
        requires
            old(self).wf(),
        ensures
            final(self).wf(),
            final(self).mb() == (MailboxModel {
                tag: tag_after_write(old(self).mb().tag, offset as int, value),
                ..old(self).mb()
            }),
            r is Ok <==> tag_write_ok(old(self).mb().tag, offset as int),
            r matches Result::Err(e) ==> e == Error::TagError(
                tag_write_err(old(self).mb().tag, offset as int),
            ),
    {
        self.mailbox.submit(Request::Write(offset, value));
        proof {
            assert(spec_submit(old(self).mb(), Request::Write(offset, value)).queue[0]
                == Request::Write(offset, value));
        }
        let resp = self.mailbox.step();
        proof {
            assert(final(self).mb() =~= (MailboxModel {
                tag: tag_after_write(old(self).mb().tag, offset as int, value),
                ..old(self).mb()
            }));
        }
        match resp {
            Some(Response::Written) => Ok(()),
            Some(Response::Rejected(s)) => Err(Error::TagError(s)),
            _ => {
                proof {
                    assert(false);
                }
                Err(Error::ParkError)
            },
        }
    }

    /// The status the handle currently reports, asked through the mailbox.
    pub fn status(&mut self) -> (s: Status)
        requires
            old(self).wf(),
        ensures
            final(self).wf(),
            final(self).mb() == old(self).mb(),
            s == tag_status(old(self).mb().tag),
    {
        self.mailbox.submit(Request::QueryStatus);
        proof {
            assert(spec_submit(old(self).mb(), Request::QueryStatus).queue[0]
                == Request::QueryStatus);
        }
        let resp = self.mailbox.step();
        proof {
            assert(final(self).mb() =~= old(self).mb());
        }
        match resp {
            Some(Response::StatusIs(s)) => s,
            _ => {
                proof {
                    assert(false);
                }
                Status::pending()
            },
        }
    }
}

} // verus!
