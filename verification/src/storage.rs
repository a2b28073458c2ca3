//! The object-storage abstraction the service keeps file payloads in, and
//! a verified in-memory backend.
//!
//! The trait deliberately promises nothing of its methods: a backend is
//! free to fail any call (a network error, a timeout), and every caller in
//! this crate states what holds whatever a call returns. Deleting an
//! absent key is treated as success, which keeps deletion idempotent and
//! makes concurrent cleanup runs safe.

use vstd::prelude::*;

use crate::text::streq;
use vstd::string::StringExecFns;

verus! {

/// An object store: put, get, delete, probe and address payloads by key.
pub trait StorageBackend {
    /// Stores a payload under a key and returns its public URL.
    fn upload(&mut self, key: &str, data: Vec<u8>, content_type: &str) -> Result<String, String>;

    /// Retrieves the payload stored under a key.
    fn download(&self, key: &str) -> Result<Vec<u8>, String>;

    /// Removes the payload stored under a key; removing an absent key
    /// succeeds.
    fn delete(&mut self, key: &str) -> Result<(), String>;

    /// The public URL of the payload stored under a key.
    fn get_url(&self, key: &str) -> Result<String, String>;

    /// Whether a payload is stored under the key.
    fn key_exists(&self, key: &str) -> Result<bool, String>;
}

/// An in-memory object store. Keys listed in `failing` have their delete
/// calls fail, which lets a caller exercise the partial-failure paths of
/// the cleanup engine.
pub struct MemoryStorageBackend {
    pub objects: Vec<(String, Vec<u8>)>,
    pub failing: Vec<String>,
    pub public_url: String,
}

/// Some stored object has this key.
pub open spec fn spec_has_key(objects: Seq<(String, Vec<u8>)>, key: Seq<char>) -> bool {
    exists|i: int| 0 <= i < objects.len() && objects[i].0@ == key
}

/// Some key in the list equals this one.
pub open spec fn spec_key_listed(keys: Seq<String>, key: Seq<char>) -> bool {
    exists|i: int| 0 <= i < keys.len() && keys[i]@ == key
}

impl MemoryStorageBackend {
    /// An empty in-memory store whose deletes all succeed.
    pub fn new(public_url: String) -> (r: MemoryStorageBackend)
        ensures
            r.objects@.len() == 0,
            r.failing@.len() == 0,
            r.public_url == public_url,
    {
        MemoryStorageBackend { objects: Vec::new(), failing: Vec::new(), public_url }
    }

    /// Makes every later delete of this key fail, until the store is
    /// rebuilt.
    pub fn fail_deletes_of(&mut self, key: String)
        ensures
            final(self).objects == old(self).objects,
            final(self).public_url == old(self).public_url,
            final(self).failing@ == old(self).failing@.push(key),
    {
        self.failing.push(key);
    }

    fn find_key(&self, key: &str) -> (r: Option<usize>)
        ensures
            match r {
                Some(i) => i < self.objects@.len() && self.objects@[i as int].0@ == key@,
                None => !spec_has_key(self.objects@, key@),
            },
    {
        let mut i: usize = 0;
        while i < self.objects.len()
            invariant
                i <= self.objects@.len(),
                forall|k: int| 0 <= k < i ==> self.objects@[k].0@ != key@,
            decreases self.objects@.len() - i,
        {
            if streq(self.objects[i].0.as_str(), key) {
                return Some(i);
            }
            i = i + 1;
        }
        None
    }

    fn is_failing(&self, key: &str) -> (r: bool)
        ensures
            r == spec_key_listed(self.failing@, key@),
    {
        let mut i: usize = 0;
        while i < self.failing.len()
            invariant
                i <= self.failing@.len(),
                forall|k: int| 0 <= k < i ==> self.failing@[k]@ != key@,
            decreases self.failing@.len() - i,
        {
            if streq(self.failing[i].as_str(), key) {
                return true;
            }
            i = i + 1;
        }
        false
    }
}

impl StorageBackend for MemoryStorageBackend {
    fn upload(&mut self, key: &str, data: Vec<u8>, content_type: &str) -> (r: Result<
        String,
        String,
    >)
        ensures
            r is Ok,
            final(self).failing == old(self).failing,
            final(self).public_url == old(self).public_url,
            final(self).objects@.len() == old(self).objects@.len() + 1,
            final(self).objects@.last().0@ == key@,
            final(self).objects@.last().1 == data,
            final(self).objects@.take(old(self).objects@.len() as int) == old(self).objects@,
            r matches Ok(url) ==> url@ == old(self).public_url@ + "/"@ + key@,
    {
        let stored_key = key.to_owned();
        self.objects.push((stored_key, data));
        let url = self.public_url.clone().concat("/").concat(key);
        Ok(url)
    }

    fn download(&self, key: &str) -> (r: Result<Vec<u8>, String>)
        ensures
            r matches Ok(data) ==> exists|i: int|
                0 <= i < self.objects@.len() && self.objects@[i].0@ == key@ && data@
                    == self.objects@[i].1@,
            r is Err ==> !spec_has_key(self.objects@, key@),
    {
        match self.find_key(key) {
            Some(i) => Ok(crate::text::copy_bytes(&self.objects[i].1)),
            None => Err("object not found: ".to_owned().concat(key)),
        }
    }

    fn delete(&mut self, key: &str) -> (r: Result<(), String>)
        ensures
            final(self).failing == old(self).failing,
            final(self).public_url == old(self).public_url,
            r is Ok <==> !spec_key_listed(old(self).failing@, key@),
            r is Err ==> final(self).objects == old(self).objects,
            r is Ok ==> !spec_has_key(final(self).objects@, key@),
    {
        if self.is_failing(key) {
            return Err("delete failed: ".to_owned().concat(key));
        }
        loop
            invariant
                !spec_key_listed(self.failing@, key@),
                self.failing == old(self).failing,
                self.public_url == old(self).public_url,
            ensures
                !spec_has_key(self.objects@, key@),
            decreases self.objects@.len(),
        {
            match self.find_key(key) {
                Some(i) => {
                    self.objects.remove(i);
                },
                None => {
                    break ;
                },
            }
        }
        Ok(())
    }

    fn get_url(&self, key: &str) -> (r: Result<String, String>)
        ensures
            r is Ok,
            r matches Ok(url) ==> url@ == self.public_url@ + "/"@ + key@,
    {
        Ok(self.public_url.clone().concat("/").concat(key))
    }

    fn key_exists(&self, key: &str) -> (r: Result<bool, String>)
        ensures
            r is Ok,
            r matches Ok(b) ==> b == spec_has_key(self.objects@, key@),
    {
        match self.find_key(key) {
            Some(_) => Ok(true),
            None => Ok(false),
        }
    }
}

} // verus!
