//! The response cache: one stored body per user name.
//!
//! The store keeps raw response bodies keyed by user name and is the model
//! of the cache directory on disk: the runner mirrors every write and every
//! clear onto one flat file per user.

use vstd::prelude::*;
use crate::fetch::{FetchAction, FetchEvent, FetchState, step_rel, api_url_of};

verus! {

/// One cached response body, keyed by the user it was fetched for.
pub struct CacheEntry {
    pub user: String,
    pub body: String,
}

/// The store seen as a map from user name to cached body. Later entries
/// win, so a rewrite replaces the stored body.
pub open spec fn map_of(s: Seq<CacheEntry>) -> Map<Seq<char>, Seq<char>>
    decreases s.len(),
{
    if s.len() == 0 {
        Map::empty()
    } else {
        map_of(s.drop_last()).insert(s.last().user@, s.last().body@)
    }
}

/// An in-memory store of raw response bodies, one per user name.
pub struct CacheStore {
    entries: Vec<CacheEntry>,
}

impl View for CacheStore {
    type V = Map<Seq<char>, Seq<char>>;

    closed spec fn view(&self) -> Map<Seq<char>, Seq<char>> {
        map_of(self.entries@)
    }
}

impl CacheStore {
    /// A store with nothing cached.
    pub fn new() -> (r: CacheStore)
        ensures
            r@ == Map::<Seq<char>, Seq<char>>::empty(),
    {
        let r = CacheStore { entries: Vec::new() };
        proof {
            assert(r@ =~= Map::<Seq<char>, Seq<char>>::empty());
        }
        r
    }

    /// Store `body` for `user`, replacing whatever was stored before.
    pub fn write(&mut self, user: String, body: String)
        ensures
            final(self)@ == old(self)@.insert(user@, body@),
    {
        let ghost u = user@;
        let ghost b = body@;
        let ghost before = self.entries@;
        self.entries.push(CacheEntry { user, body });
        proof {
            assert(self.entries@.drop_last() =~= before);
            assert(self@ =~= old(self)@.insert(u, b));
        }
    }

    /// The stored body for `user`, or `None` when nothing is cached.
    pub fn read(&self, user: &String) -> (r: Option<String>)
        ensures
            match r {
                Some(body) => self@.contains_key(user@) && body@ == self@[user@],
                None => !self@.contains_key(user@),
            },
    {
        let mut i: usize = self.entries.len();
        proof {
            assert(self.entries@.take(i as int) =~= self.entries@);
        }
        while i > 0
            invariant
                i <= self.entries@.len(),
                map_of(self.entries@).contains_key(user@) == map_of(
                    self.entries@.take(i as int),
                ).contains_key(user@),
                map_of(self.entries@).contains_key(user@) ==> map_of(
                    self.entries@.take(i as int),
                )[user@] == map_of(self.entries@)[user@],
            decreases i,
        {
            proof {
                assert(self.entries@.take(i as int).drop_last() =~= self.entries@.take(i - 1));
                assert(self.entries@.take(i as int).last() == self.entries@[i - 1]);
            }
            let e = &self.entries[i - 1];
            if e.user == *user {
                return Some(e.body.clone());
            }
            i = i - 1;
        }
        proof {
            assert(self.entries@.take(0) =~= Seq::<CacheEntry>::empty());
        }
        None
    }

    /// Whether a body is cached for `user`.
    pub fn contains(&self, user: &String) -> (r: bool)
        ensures
            r == self@.contains_key(user@),
    {
        let cached = self.read(user);
        cached.is_some()
    }

    /// Drop every cached body.
    pub fn clear(&mut self)
        ensures
            final(self)@ == Map::<Seq<char>, Seq<char>>::empty(),
    {
        self.entries = Vec::new();
        proof {
            assert(self@ =~= Map::<Seq<char>, Seq<char>>::empty());
        }
    }
}

/// Writing a body for a user and then reading that user back yields the
/// written body, character for character.
pub proof fn lemma_write_read_round_trip(
    store: Map<Seq<char>, Seq<char>>,
    user: Seq<char>,
    body: Seq<char>,
)
    ensures
        store.insert(user, body).contains_key(user),
        store.insert(user, body)[user] == body,
{
}

/// Clearing leaves no user cached, so for any user the pipeline sees a
/// miss, and with a credential in hand its next action is the request for
/// that user's address.
pub proof fn lemma_cleared_cache_forces_fetch(
    store: CacheStore,
    user: String,
    token: String,
    s2: FetchState,
    a2: FetchAction,
    s3: FetchState,
    a3: FetchAction,
)
    requires
        store@ == Map::<Seq<char>, Seq<char>>::empty(),
        step_rel(
            FetchState::Start { user },
            FetchEvent::CacheChecked { cached: None },
            s2,
            a2,
        ),
        step_rel(s2, FetchEvent::CredentialRead { token: Some(token) }, s3, a3),
    ensures
        !store@.contains_key(user@),
        a2 matches FetchAction::ReadCredential,
        a3 matches FetchAction::SendRequest { url, .. } && url@ == api_url_of(user@),
{
}

} // verus!
