use vstd::prelude::*;
use crate::keys::{credit_key, list_key, credit_key_string};
use crate::types::{Config, FbEntry, FeedbackChannel, OpenMessage, StoreError};
use pickledb::PickleDb;

verus! {

// ---------------------------------------------------------------------
// The persistent key-value store, from the outside crate.
//
// pickledb keeps two tables: a scalar table (`set` / `get` / `rem`) and
// a list table (`lcreate` / `ladd` / `lrem_value` / `liter`), both keyed
// by strings, persisted to one file on every mutation (write-through).
// Verus sees the store through two names:
//   - `db_credits`:    the scalar entries that read as an `i64`;
//   - `db_open_lists`: each list, restricted to the items that read as a
//     `(u64, u64)` pair, in order.
// Every method the ledger calls has a wrapper below whose contract says,
// over those two names, what the crate's source does.
// ---------------------------------------------------------------------

#[verifier::external_type_specification]
#[verifier::external_body]
pub struct ExPickleDb(PickleDb);

/// The scalar table of the store, restricted to numeric entries:
/// key, to the stored `i64`.
pub uninterp spec fn db_credits(db: PickleDb) -> Map<Seq<char>, i64>;

/// The list table of the store: key, to the stored items that read as a
/// `(u64, u64)` pair, in order.
pub uninterp spec fn db_open_lists(db: PickleDb) -> Map<Seq<char>, Seq<(u64, u64)>>;

/// Relies on pickledb's `PickleDb::load`: reads the store file at `path`
/// (JSON serialization, write-through on every later mutation), or
/// reports `None` when the file cannot be read or parsed.
#[verifier::external_body]
fn db_load(path: &str) -> (r: Option<PickleDb>) {
    match PickleDb::load(
        path,
        pickledb::PickleDbDumpPolicy::AutoDump,
        pickledb::SerializationMethod::Json,
    ) {
        Ok(db) => Some(db),
        Err(_) => None,
    }
}

/// Relies on pickledb's `PickleDb::new`: a fresh store with both tables
/// empty, to be persisted at `path` (JSON serialization, write-through).
#[verifier::external_body]
fn db_new(path: &str) -> (r: PickleDb)
    ensures
        db_credits(r) =~= Map::empty(),
        db_open_lists(r) =~= Map::empty(),
{
    PickleDb::new(
        path,
        pickledb::PickleDbDumpPolicy::AutoDump,
        pickledb::SerializationMethod::Json,
    )
}

/// Relies on pickledb's `PickleDb::get::<i64>`: looks the key up in the
/// scalar table; the stored number, if the key is present and its value
/// reads as one.
#[verifier::external_body]
fn db_get_i64(db: &PickleDb, key: &str) -> (r: Option<i64>)
    ensures
        r == (if db_credits(*db).dom().contains(key@) {
            Some(db_credits(*db)[key@])
        } else {
            None::<i64>
        }),
{
    db.get::<i64>(key)
}

/// Relies on pickledb's `PickleDb::set::<i64>`: writes the number under
/// the key in the scalar table and persists; a list of the same name is
/// dropped first.  `false`: persisting failed and the scalar write was
/// rolled back (the list drop stands either way).
#[verifier::external_body]
fn db_set_i64(db: &mut PickleDb, key: &str, value: i64) -> (r: bool)
    ensures
        db_open_lists(*final(db)) == db_open_lists(*old(db)).remove(key@),
        r ==> db_credits(*final(db)) == db_credits(*old(db)).insert(key@, value),
        !r ==> db_credits(*final(db)) == db_credits(*old(db)),
{
    db.set::<i64>(key, &value).is_ok()
}

/// Relies on pickledb's `PickleDb::rem`: removes the key from both
/// tables and persists.  `false`: persisting failed; the list table is
/// then unchanged and the scalar table may or may not still hold the key.
#[verifier::external_body]
fn db_rem(db: &mut PickleDb, key: &str) -> (r: bool)
    ensures
        r ==> db_credits(*final(db)) == db_credits(*old(db)).remove(key@),
        r ==> db_open_lists(*final(db)) == db_open_lists(*old(db)).remove(key@),
        !r ==> db_open_lists(*final(db)) == db_open_lists(*old(db)),
        !r ==> db_credits(*final(db)) == db_credits(*old(db))
            || db_credits(*final(db)) == db_credits(*old(db)).remove(key@),
{
    db.rem(key).is_ok()
}

/// Relies on pickledb's `PickleDb::lexists`: whether the key names a
/// list in the list table.
#[verifier::external_body]
fn db_list_exists(db: &PickleDb, key: &str) -> (r: bool)
    ensures
        r == db_open_lists(*db).dom().contains(key@),
{
    db.lexists(key)
}

/// Relies on pickledb's `PickleDb::lcreate`: puts an empty list under
/// the key (replacing any list already there), drops a scalar of the
/// same name, and persists.  `false`: persisting failed; the in-memory
/// effect stands either way.
#[verifier::external_body]
fn db_list_create(db: &mut PickleDb, key: &str) -> (r: bool)
    ensures
        db_open_lists(*final(db)) == db_open_lists(*old(db)).insert(
            key@,
            Seq::<(u64, u64)>::empty(),
        ),
        db_credits(*final(db)) == db_credits(*old(db)).remove(key@),
{
    db.lcreate(key).is_ok()
}

/// Relies on pickledb's `PickleDb::ladd::<(u64, u64)>`: appends the pair
/// to the list under the key and persists.  `true` only when the list
/// exists and the write persisted; otherwise nothing changed.
#[verifier::external_body]
fn db_list_append(db: &mut PickleDb, key: &str, user: u64, msg: u64) -> (r: bool)
    ensures
        r ==> db_open_lists(*old(db)).dom().contains(key@) && db_open_lists(*final(db))
            == db_open_lists(*old(db)).insert(
            key@,
            db_open_lists(*old(db))[key@].push((user, msg)),
        ),
        r ==> db_credits(*final(db)) == db_credits(*old(db)),
        !r ==> db_open_lists(*final(db)) == db_open_lists(*old(db)) && db_credits(*final(db))
            == db_credits(*old(db)),
{
    db.ladd::<(u64, u64)>(key, &(user, msg)).is_some()
}

/// Relies on pickledb's `PickleDb::lrem_value::<(u64, u64)>`: removes
/// the first stored item equal to the pair's serialized form and
/// persists.  `Some(true)`: one occurrence of the pair left the list.
/// `Some(false)`: nothing matched, nothing changed - and owed whenever
/// the list lacks the pair, since no persisting is attempted then.
/// `None`: persisting failed and the removal was rolled back.
#[verifier::external_body]
fn db_list_remove(db: &mut PickleDb, key: &str, user: u64, msg: u64) -> (r: Option<bool>)
    ensures
        r == Some(true) ==> db_open_lists(*old(db)).dom().contains(key@) && exists|i: int|
            0 <= i < db_open_lists(*old(db))[key@].len()
                && db_open_lists(*old(db))[key@][i] == (user, msg) && db_open_lists(*final(db))
                == db_open_lists(*old(db)).insert(
                key@,
                #[trigger] db_open_lists(*old(db))[key@].remove(i),
            ),
        r != Some(true) ==> db_open_lists(*final(db)) == db_open_lists(*old(db)),
        r == Some(false) ==> *final(db) == *old(db),
        !(db_open_lists(*old(db)).dom().contains(key@) && db_open_lists(*old(db))[key@].contains(
            (user, msg),
        )) ==> r == Some(false),
        db_credits(*final(db)) == db_credits(*old(db)),
{
    match db.lrem_value::<(u64, u64)>(key, &(user, msg)) {
        Ok(b) => Some(b),
        Err(_) => None,
    }
}

/// Relies on pickledb's `PickleDb::liter` and its items'
/// `get_item::<(u64, u64)>`: walks the list under the key in order and
/// hands back the items that read as pairs.  The list must exist:
/// pickledb aborts the process on a missing one.
#[verifier::external_body]
fn db_list_items(db: &PickleDb, key: &str) -> (r: Vec<(u64, u64)>)
    requires
        db_open_lists(*db).dom().contains(key@),
    ensures
        r@ == db_open_lists(*db)[key@],
{
    let mut out: Vec<(u64, u64)> = Vec::new();
    for item in db.liter(key) {
        match item.get_item::<(u64, u64)>() {
            Some(p) => out.push(p),
            None => {}
        }
    }
    out
}

// ---------------------------------------------------------------------
// The ledger.
// ---------------------------------------------------------------------

/// The persistent ledger: per-(user, guild) credit entries and
/// per-channel ordered open-request lists, in one write-through store.
/// Callers serialize access (one store-wide lock around the whole
/// value); every method is one atomic check-and-mutate.
pub struct Database {
    db: PickleDb,
}

impl Database {
    /// The credit table: the store key of a (user, guild) pair, to the
    /// Unix timestamp of that user's last accepted feedback reply.
    /// An entry exists iff the pair holds an unused credit.
    pub closed spec fn credits(self) -> Map<Seq<char>, i64> {
        db_credits(self.db)
    }

    /// The open-request tables: the store key of a channel, to its
    /// ordered list of (user, message) pairs.
    pub closed spec fn open_lists(self) -> Map<Seq<char>, Seq<(u64, u64)>> {
        db_open_lists(self.db)
    }

    /// Every channel of `channels` has its open-request list in place.
    pub open spec fn lists_ready(self, channels: Seq<FeedbackChannel>) -> bool {
        forall|i: int|
            0 <= i < channels.len() ==> self.open_lists().dom().contains(
                #[trigger] list_key(channels[i]),
            )
    }

    /// The store keys of the open-request lists of `channels`.
    pub open spec fn channel_list_keys(channels: Seq<FeedbackChannel>) -> Set<Seq<char>> {
        Set::new(
            |k: Seq<char>| exists|i: int| 0 <= i < channels.len() && k == list_key(channels[i]),
        )
    }

    /// Creates the open-request list of every channel that lacks one,
    /// empty; lists already present are kept exactly as they are, so
    /// initialization is idempotent: on a store where every list already
    /// exists, nothing changes at all.  `Err(Persist)`: a created list
    /// could not be persisted; the store may then hold a prefix of the
    /// missing lists.
    #[verifier::loop_isolation(false)]
    pub fn ensure_lists(&mut self, channels: &Vec<FeedbackChannel>) -> (r: Result<(), StoreError>)
        ensures
            r matches Ok(_) ==> final(self).lists_ready(channels@),
            forall|k: Seq<char>| #[trigger]
                old(self).open_lists().dom().contains(k) ==> final(self).open_lists().dom()
                    .contains(k) && final(self).open_lists()[k] == old(self).open_lists()[k],
            forall|k: Seq<char>| #[trigger]
                final(self).open_lists().dom().contains(k) ==> old(self).open_lists().dom()
                    .contains(k) || Self::channel_list_keys(channels@).contains(k),
            forall|k: Seq<char>|
                !Self::channel_list_keys(channels@).contains(k)
                    ==> (#[trigger] final(self).credits().dom().contains(k)
                        == old(self).credits().dom().contains(k))
                    && (old(self).credits().dom().contains(k)
                        ==> final(self).credits()[k] == old(self).credits()[k]),
            old(self).lists_ready(channels@) ==> (r matches Ok(_) && *final(self) == *old(self)),
    {
        let ghost init = *self;
        let mut idx: usize = 0;
        while idx < channels.len()
            invariant
                idx <= channels.len(),
                forall|i: int|
                    0 <= i < idx ==> self.open_lists().dom().contains(
                        #[trigger] list_key(channels@[i]),
                    ),
                forall|k: Seq<char>| #[trigger]
                    init.open_lists().dom().contains(k) ==> self.open_lists().dom().contains(k)
                        && self.open_lists()[k] == init.open_lists()[k],
                forall|k: Seq<char>| #[trigger]
                    self.open_lists().dom().contains(k) ==> init.open_lists().dom().contains(k)
                        || Self::channel_list_keys(channels@).contains(k),
                forall|k: Seq<char>|
                    !Self::channel_list_keys(channels@).contains(k) ==> (#[trigger] self.credits()
                        .dom().contains(k) == init.credits().dom().contains(k)) && (
                    init.credits().dom().contains(k) ==> self.credits()[k] == init.credits()[k]),
                init.lists_ready(channels@) ==> *self == init,
            decreases channels.len() - idx,
        {
            let ch = channels[idx];
            let key = ch.to_string();
            proof {
                assert(0 <= idx < channels@.len() && key@ == list_key(channels@[idx as int]));
                assert(Self::channel_list_keys(channels@).contains(key@));
            }
            if !db_list_exists(&self.db, key.as_str()) {
                let ghost prev = *self;
                let created = db_list_create(&mut self.db, key.as_str());
                proof {
                    assert forall|k: Seq<char>| #[trigger]
                        self.open_lists().dom().contains(k) implies init.open_lists().dom()
                        .contains(k) || Self::channel_list_keys(channels@).contains(k) by {
                        if k != key@ {
                            assert(prev.open_lists().dom().contains(k));
                        }
                    }
                    assert forall|k: Seq<char>|
                        !Self::channel_list_keys(channels@).contains(k) implies (
                    #[trigger] self.credits().dom().contains(k) == init.credits().dom().contains(
                        k,
                    )) && (init.credits().dom().contains(k) ==> self.credits()[k]
                        == init.credits()[k]) by {
                        assert(k != key@);
                        assert(self.credits().dom().contains(k) == prev.credits().dom().contains(
                            k,
                        ));
                    }
                }
                if !created {
                    return Err(StoreError::Persist);
                }
            }
            proof {
                assert forall|k: Seq<char>|
                    !Self::channel_list_keys(channels@).contains(k) implies (
                #[trigger] self.credits().dom().contains(k) == init.credits().dom().contains(k))
                    && (init.credits().dom().contains(k) ==> self.credits()[k]
                    == init.credits()[k]) by {
                    assert(k != key@);
                    assert(self.credits().dom().contains(k) == init.credits().dom().contains(k));
                    assert(init.credits().dom().contains(k) ==> self.credits()[k]
                        == init.credits()[k]);
                }
            }
            idx += 1;
        }
        Ok(())
    }

    /// Opens the store at `path`, falling back to a fresh empty store
    /// when no readable file is there, and puts every configured
    /// channel's open-request list in place.  `Err(Persist)`: a created
    /// list could not be persisted.
    pub fn open(path: &str, config: &Config) -> (r: Result<Database, StoreError>)
        ensures
            r matches Ok(d) ==> d.lists_ready(config.channels@),
    {
        let db = match db_load(path) {
            Some(db) => db,
            None => db_new(path),
        };
        let mut d = Database { db };
        match d.ensure_lists(&config.channels) {
            Ok(_) => Ok(d),
            Err(e) => Err(e),
        }
    }

    /// Consumes the credit of (author, guild): removes the entry and
    /// returns it, or returns `None` when the pair holds none - one
    /// atomic check-and-remove.  `Err(Persist)`: the removal could not
    /// be persisted and the entry may still be there.
    pub fn take_feedback(&mut self, author: u64, guild: u64) -> (r: Result<
        Option<FbEntry>,
        StoreError,
    >)
        ensures
            ({
                let ck = credit_key(author, guild);
                &&& (r is Ok && r->Ok_0 is Some ==> old(self).credits().dom().contains(ck)
                    && r->Ok_0->0.last_reply == old(self).credits()[ck] && final(self).credits()
                    == old(self).credits().remove(ck) && final(self).open_lists() == old(self).open_lists().remove(ck))
                &&& (r is Ok && r->Ok_0 is None ==> !old(self).credits().dom().contains(ck)
                    && *final(self) == *old(self))
                &&& (!old(self).credits().dom().contains(ck) ==> r == Ok::<
                    Option<FbEntry>,
                    StoreError,
                >(None))
                &&& (r matches Err(e) ==> e == StoreError::Persist && final(self).open_lists()
                    == old(self).open_lists() && (final(self).credits() == old(self).credits()
                    || final(self).credits() == old(self).credits().remove(ck)))
            }),
    {
        let key = credit_key_string(author, guild);
        match db_get_i64(&self.db, key.as_str()) {
            Some(ts) => {
                if db_rem(&mut self.db, key.as_str()) {
                    Ok(Some(FbEntry { last_reply: ts }))
                } else {
                    Err(StoreError::Persist)
                }
            },
            None => Ok(None),
        }
    }

    /// Grants (or refreshes) the credit of (author, guild): upserts the
    /// entry unconditionally.  At most one credit per pair ever exists -
    /// a later grant only resets its timestamp.  `Err(Persist)`: the
    /// write was rolled back; a stale list stored under the credit's own
    /// key is dropped either way.
    pub fn allow_feedback(&mut self, author: u64, guild: u64, fb: &FbEntry) -> (r: Result<
        (),
        StoreError,
    >)
        ensures
            ({
                let ck = credit_key(author, guild);
                &&& final(self).open_lists() == old(self).open_lists().remove(ck)
                &&& (r matches Ok(_) ==> final(self).credits() == old(self).credits().insert(
                    ck,
                    fb.last_reply,
                ))
                &&& (r matches Err(e) ==> e == StoreError::Persist && final(self).credits()
                    == old(self).credits())
            }),
    {
        let key = credit_key_string(author, guild);
        if db_set_i64(&mut self.db, key.as_str(), fb.last_reply) {
            Ok(())
        } else {
            Err(StoreError::Persist)
        }
    }

    /// Appends the entry to the channel's open-request list (which must
    /// exist; `Database::open` creates the configured ones).
    /// `Err(Persist)`: nothing changed.
    pub fn add_open_msg(&mut self, channel: &FeedbackChannel, entry: &OpenMessage) -> (r: Result<
        (),
        StoreError,
    >)
        requires
            old(self).open_lists().dom().contains(list_key(*channel)),
        ensures
            ({
                let lk = list_key(*channel);
                &&& final(self).credits() == old(self).credits()
                &&& (r matches Ok(_) ==> final(self).open_lists() == old(self).open_lists().insert(
                    lk,
                    old(self).open_lists()[lk].push((entry.user, entry.msg)),
                ))
                &&& (r matches Err(e) ==> e == StoreError::Persist && final(self).open_lists()
                    == old(self).open_lists())
            }),
    {
        let key = channel.to_string();
        if db_list_append(&mut self.db, key.as_str(), entry.user, entry.msg) {
            Ok(())
        } else {
            Err(StoreError::Persist)
        }
    }

    /// Removes one occurrence of the entry from the channel's
    /// open-request list, keeping the order of the remaining entries.
    /// `Err(NotFound)` (nothing changed): no such entry was stored - a
    /// broken invariant upstream, surfaced rather than ignored.
    /// `Err(Persist)`: the removal was rolled back.
    pub fn remove_open_msg(&mut self, channel: &FeedbackChannel, entry: &OpenMessage) -> (r: Result<
        (),
        StoreError,
    >)
        ensures
            ({
                let lk = list_key(*channel);
                let p = (entry.user, entry.msg);
                &&& final(self).credits() == old(self).credits()
                &&& (r matches Ok(_) ==> old(self).open_lists().dom().contains(lk) && exists|i: int|
                    0 <= i < old(self).open_lists()[lk].len() && old(self).open_lists()[lk][i] == p
                        && final(self).open_lists() == old(self).open_lists().insert(
                        lk,
                        #[trigger] old(self).open_lists()[lk].remove(i),
                    ))
                &&& (!(r matches Ok(_)) ==> final(self).open_lists() == old(self).open_lists())
                &&& (r == Err::<(), StoreError>(StoreError::NotFound) ==> *final(self) == *old(
                    self,
                ))
                &&& (!(old(self).open_lists().dom().contains(lk) && old(self).open_lists()[lk]
                    .contains(p)) ==> r == Err::<(), StoreError>(StoreError::NotFound))
            }),
    {
        let key = channel.to_string();
        match db_list_remove(&mut self.db, key.as_str(), entry.user, entry.msg) {
            Some(true) => {
                proof {
                    let lk = list_key(*channel);
                    let p = (entry.user, entry.msg);
                    let i = choose|i: int|
                        0 <= i < old(self).open_lists()[lk].len() && old(self).open_lists()[lk][i]
                            == p && self.open_lists() == old(self).open_lists().insert(
                            lk,
                            #[trigger] old(self).open_lists()[lk].remove(i),
                        );
                    assert(0 <= i < old(self).open_lists()[lk].len() && old(self).open_lists()[lk][i] == p && self.open_lists() == old(self).open_lists().insert(lk, old(self).open_lists()[lk].remove(i)));
                    assert(old(self).open_lists()[lk].contains(p));
                }
                Ok(())
            },
            Some(false) => Err(StoreError::NotFound),
            None => Err(StoreError::Persist),
        }
    }

    /// The channel's open requests, in insertion order.  The channel's
    /// list must exist.
    pub fn open_msgs(&self, channel: &FeedbackChannel) -> (r: Vec<OpenMessage>)
        requires
            self.open_lists().dom().contains(list_key(*channel)),
        ensures
            r@.len() == self.open_lists()[list_key(*channel)].len(),
            forall|i: int|
                0 <= i < r@.len() ==> ((#[trigger] r@[i]).user, r@[i].msg) == self.open_lists()[
                    list_key(*channel)][i],
    {
        let key = channel.to_string();
        let items = db_list_items(&self.db, key.as_str());
        let mut out: Vec<OpenMessage> = Vec::new();
        let mut i: usize = 0;
        while i < items.len()
            invariant
                i <= items.len(),
                items@ == self.open_lists()[list_key(*channel)],
                out@.len() == i,
                forall|j: int|
                    0 <= j < i ==> ((#[trigger] out@[j]).user, out@[j].msg) == items@[j],
            decreases items.len() - i,
        {
            let it = items[i];
            out.push(OpenMessage { user: it.0, msg: it.1 });
            i += 1;
        }
        out
    }
}

} // verus!
