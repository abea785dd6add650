//! The assignment policies: how a parsed key and optional value mutate the
//! environment store. Two interchangeable behaviours exist, chosen by the
//! caller once per load and applied uniformly to every line.

use vstd::prelude::*;

use crate::error::FaktorError;
use crate::store::EnvStore;

verus! {

/// A strategy that decides, given a key and an optional value, how to
/// mutate the environment store. Every implementation states its effect as
/// a map transformation and promises to apply exactly that.
pub trait SetEnvVar {
    /// The store contents after applying `key` and `value` to `env`.
    spec fn spec_set(
        &self,
        env: Map<Seq<char>, Seq<char>>,
        key: Seq<char>,
        value: Option<Seq<char>>,
    ) -> Map<Seq<char>, Seq<char>>;

    /// Applies `key` and `value` to `store`. As currently specified every
    /// policy succeeds; the `Result` is the propagation channel for
    /// policy-level failures a future variant may introduce.
    fn set(&self, store: &mut EnvStore, key: &str, value: Option<&str>) -> (r: Result<
        (),
        FaktorError,
    >)
        ensures
            r is Ok,
            final(store)@ == self.spec_set(old(store)@, key@, value.deep_view()),
    ;
}

/// The policy that always applies the file's value: an absent or empty
/// value deletes the key, any other value replaces whatever was there.
#[derive(Debug)]
pub struct Override;

/// The policy that only fills gaps: a present value (empty included) is
/// written only when the key is absent from the store; an absent value
/// does nothing.
#[derive(Debug)]
pub struct Skip;

impl SetEnvVar for Override {
    open spec fn spec_set(
        &self,
        env: Map<Seq<char>, Seq<char>>,
        key: Seq<char>,
        value: Option<Seq<char>>,
    ) -> Map<Seq<char>, Seq<char>> {
        match value {
            Some(v) => if v.len() == 0 {
                env.remove(key)
            } else {
                env.insert(key, v)
            },
            None => env.remove(key),
        }
    }

    fn set(&self, store: &mut EnvStore, key: &str, value: Option<&str>) -> (r: Result<
        (),
        FaktorError,
    >) {
        match value {
            Some(val) => if val.is_empty() {
                store.remove(key);
            } else {
                store.set(key, val);
            },
            None => store.remove(key),
        }
        Ok(())
    }
}

impl SetEnvVar for Skip {
    open spec fn spec_set(
        &self,
        env: Map<Seq<char>, Seq<char>>,
        key: Seq<char>,
        value: Option<Seq<char>>,
    ) -> Map<Seq<char>, Seq<char>> {
        match value {
            Some(v) => if env.contains_key(key) {
                env
            } else {
                env.insert(key, v)
            },
            None => env,
        }
    }

    fn set(&self, store: &mut EnvStore, key: &str, value: Option<&str>) -> (r: Result<
        (),
        FaktorError,
    >) {
        if let Some(val) = value {
            if store.get(key).is_none() {
                store.set(key, val);
            }
        }
        Ok(())
    }
}

} // verus!
