use core::marker::PhantomData;
use vstd::prelude::*;
use crate::encoding::{all_fit, fits_len, join_prefixed, joinable, joined, len_prefixed, namespaced_key, nested_namespaces_with_key, views};
use crate::primary_key::{Prefixer, PrimaryKey};
use vstd::string::StringSliceAdditionalSpecFns;

verus! {

/// The default encoding of stored values.
pub struct Borsh;

/// A bound of a range of raw keys.
pub enum RawBound {
    Inclusive(Vec<u8>),
    Exclusive(Vec<u8>),
}

/// The storage key of one value.
pub struct Path<T, C> {
    storage_key: Vec<u8>,
    data: PhantomData<T>,
    codec: PhantomData<C>,
}

impl<T, C> View for Path<T, C> {
    type V = Seq<u8>;

    /// The storage key.
    closed spec fn view(&self) -> Seq<u8> {
        self.storage_key@
    }
}

impl<T, C> Path<T, C> {
    /// The path of the key made of a namespace, prefixes and, if given, a
    /// final key; the namespace and each prefix are preceded by their
    /// lengths.
    pub fn new(namespace: &[u8], prefixes: &[Vec<u8>], maybe_key: Option<&[u8]>) -> (r: Self)
        requires
            fits_len(namespace@),
            all_fit(views(prefixes@)),
        ensures
            r@ == namespaced_key(
                Some(namespace@),
                views(prefixes@),
                match maybe_key {
                    Some(k) => Some(k@),
                    None => None,
                },
            ),
    {
        Path {
            storage_key: nested_namespaces_with_key(Some(namespace), prefixes, maybe_key),
            data: PhantomData,
            codec: PhantomData,
        }
    }

    /// The path of a storage key given as it is.
    pub fn from_raw(storage_key: &[u8]) -> (r: Self)
        ensures
            r@ == storage_key@,
    {
        Path { storage_key: vstd::slice::slice_to_vec(storage_key), data: PhantomData, codec: PhantomData }
    }

    pub fn storage_key(&self) -> (r: &[u8])
        ensures
            r@ == self@,
    {
        self.storage_key.as_slice()
    }
}

/// A single value stored under a fixed key.
pub struct Item<T, C = Borsh> {
    path: Path<T, C>,
}

impl<T, C> View for Item<T, C> {
    type V = Seq<u8>;

    /// The storage key.
    closed spec fn view(&self) -> Seq<u8> {
        self.path@
    }
}

impl<T, C> Item<T, C> {
    pub fn new(storage_key: &str) -> (r: Self)
        ensures
            r@ == storage_key.spec_bytes(),
    {
        Item { path: Path::from_raw(storage_key.as_bytes()) }
    }

    pub fn path(&self) -> (r: &Path<T, C>)
        ensures
            r@ == self@,
    {
        &self.path
    }
}

/// The keys under a namespace, and the prefixes of compound keys given so
/// far.
pub struct Prefix<K, T, C> {
    namespace: Vec<u8>,
    suffix: PhantomData<K>,
    data: PhantomData<T>,
    codec: PhantomData<C>,
}

impl<K, T, C> View for Prefix<K, T, C> {
    type V = Seq<u8>;

    /// The bytes that every storage key under this prefix starts with.
    closed spec fn view(&self) -> Seq<u8> {
        self.namespace@
    }
}

impl<K, T, C> Prefix<K, T, C> {
    pub fn new(namespace: &[u8], prefixes: &[Vec<u8>]) -> (r: Self)
        requires
            fits_len(namespace@),
            all_fit(views(prefixes@)),
        ensures
            r@ == namespaced_key(Some(namespace@), views(prefixes@), None),
    {
        Prefix {
            namespace: nested_namespaces_with_key(Some(namespace), prefixes, None),
            suffix: PhantomData,
            data: PhantomData,
            codec: PhantomData,
        }
    }
}

impl<K: PrimaryKey, T, C> Prefix<K, T, C> {
    /// Narrows the prefix by the first element of the remaining key.
    pub fn append(self, prefix: K::Prefix) -> (r: Prefix<K::Suffix, T, C>)
        requires
            all_fit(prefix.spec_raw_prefixes()),
        ensures
            r@ == self@ + join_prefixed(prefix.spec_raw_prefixes()),
    {
        let mut namespace = self.namespace;
        let joined = prefix.joined_prefix();
        crate::encoding::extend_bytes(&mut namespace, joined.as_slice());
        Prefix { namespace, suffix: PhantomData, data: PhantomData, codec: PhantomData }
    }
}

/// A mapping from keys to values under a namespace.
pub struct StorageMap<'a, K, T, C = Borsh> {
    namespace: &'a [u8],
    key: PhantomData<K>,
    data: PhantomData<T>,
    codec: PhantomData<C>,
}

impl<'a, K, T, C> View for StorageMap<'a, K, T, C> {
    type V = Seq<u8>;

    /// The namespace.
    closed spec fn view(&self) -> Seq<u8> {
        self.namespace@
    }
}

impl<'a, K, T, C> StorageMap<'a, K, T, C> {
    pub fn new(namespace: &'a str) -> (r: Self)
        ensures
            r@ == namespace.spec_bytes(),
    {
        StorageMap { namespace: namespace.as_bytes(), key: PhantomData, data: PhantomData, codec: PhantomData }
    }
}

impl<'a, K: PrimaryKey, T, C> StorageMap<'a, K, T, C> {
    /// The path of an already joined key.
    pub fn path_raw(&self, key_raw: &[u8]) -> (r: Path<T, C>)
        requires
            fits_len(self@),
        ensures
            r@ == len_prefixed(self@) + key_raw@,
    {
        let r = Path::new(self.namespace, &[], Some(key_raw));
        proof {
            assert(views(Seq::<Vec<u8>>::empty()) =~= Seq::<Seq<u8>>::empty());
            assert(r@ =~= len_prefixed(self@) + key_raw@);
        }
        r
    }

    /// The path of a key: the namespace preceded by its length, then the
    /// joined key.
    pub fn path(&self, key: K) -> (r: Path<T, C>)
        requires
            fits_len(self@),
            joinable(key.spec_raw_keys()),
        ensures
            r@ == len_prefixed(self@) + joined(key.spec_raw_keys()),
    {
        let mut raw_keys = key.raw_keys();
        let ghost keys = views(raw_keys@);
        match raw_keys.pop() {
            Some(last) => {
                proof {
                    assert(views(raw_keys@) =~= keys.drop_last());
                }
                let r = Path::new(self.namespace, raw_keys.as_slice(), Some(last.as_slice()));
                proof {
                    assert(r@ =~= len_prefixed(self@) + joined(keys));
                }
                r
            },
            None => {
                proof {
                    assert(keys =~= Seq::<Seq<u8>>::empty());
                    assert(views(raw_keys@) =~= keys);
                }
                let r = Path::new(self.namespace, raw_keys.as_slice(), None);
                proof {
                    assert(r@ =~= len_prefixed(self@) + joined(keys));
                }
                r
            },
        }
    }

    /// All keys of the map.
    pub fn no_prefix(&self) -> (r: Prefix<K, T, C>)
        requires
            fits_len(self@),
        ensures
            r@ == len_prefixed(self@),
    {
        let r = Prefix::new(self.namespace, &[]);
        proof {
            assert(views(Seq::<Vec<u8>>::empty()) =~= Seq::<Seq<u8>>::empty());
            assert(r@ =~= len_prefixed(self@));
        }
        r
    }

    /// The keys that start with the given first element.
    pub fn prefix(&self, prefix: K::Prefix) -> (r: Prefix<K::Suffix, T, C>)
        requires
            fits_len(self@),
            all_fit(prefix.spec_raw_prefixes()),
        ensures
            r@ == len_prefixed(self@) + join_prefixed(prefix.spec_raw_prefixes()),
    {
        let raw = prefix.raw_prefixes();
        let r = Prefix::new(self.namespace, raw.as_slice());
        proof {
            assert(r@ =~= len_prefixed(self@) + join_prefixed(prefix.spec_raw_prefixes()));
        }
        r
    }
}

/// A set of keys under a namespace; each member is stored with an empty
/// value.
pub struct StorageSet<'a, T, C = Borsh> {
    namespace: &'a [u8],
    item: PhantomData<T>,
    codec: PhantomData<C>,
}

impl<'a, T, C> View for StorageSet<'a, T, C> {
    type V = Seq<u8>;

    /// The namespace.
    closed spec fn view(&self) -> Seq<u8> {
        self.namespace@
    }
}

impl<'a, T, C> StorageSet<'a, T, C> {
    pub fn new(namespace: &'a str) -> (r: Self)
        ensures
            r@ == namespace.spec_bytes(),
    {
        StorageSet { namespace: namespace.as_bytes(), item: PhantomData, codec: PhantomData }
    }
}

impl<'a, T: PrimaryKey, C> StorageSet<'a, T, C> {
    /// The path of an already joined member.
    pub fn path_raw(&self, key_raw: &[u8]) -> (r: Path<(), Borsh>)
        requires
            fits_len(self@),
        ensures
            r@ == len_prefixed(self@) + key_raw@,
    {
        let r = Path::new(self.namespace, &[], Some(key_raw));
        proof {
            assert(views(Seq::<Vec<u8>>::empty()) =~= Seq::<Seq<u8>>::empty());
            assert(r@ =~= len_prefixed(self@) + key_raw@);
        }
        r
    }

    /// The path of a member: the namespace preceded by its length, then the
    /// joined key.
    pub fn path(&self, item: T) -> (r: Path<(), Borsh>)
        requires
            fits_len(self@),
            joinable(item.spec_raw_keys()),
        ensures
            r@ == len_prefixed(self@) + joined(item.spec_raw_keys()),
    {
        let mut raw_keys = item.raw_keys();
        let ghost keys = views(raw_keys@);
        match raw_keys.pop() {
            Some(last) => {
                proof {
                    assert(views(raw_keys@) =~= keys.drop_last());
                }
                let r = Path::new(self.namespace, raw_keys.as_slice(), Some(last.as_slice()));
                proof {
                    assert(r@ =~= len_prefixed(self@) + joined(keys));
                }
                r
            },
            None => {
                proof {
                    assert(keys =~= Seq::<Seq<u8>>::empty());
                    assert(views(raw_keys@) =~= keys);
                }
                let r = Path::new(self.namespace, raw_keys.as_slice(), None);
                proof {
                    assert(r@ =~= len_prefixed(self@) + joined(keys));
                }
                r
            },
        }
    }

    /// All members.
    pub fn no_prefix(&self) -> (r: Prefix<T, (), C>)
        requires
            fits_len(self@),
        ensures
            r@ == len_prefixed(self@),
    {
        let r = Prefix::new(self.namespace, &[]);
        proof {
            assert(views(Seq::<Vec<u8>>::empty()) =~= Seq::<Seq<u8>>::empty());
            assert(r@ =~= len_prefixed(self@));
        }
        r
    }

    /// The members that start with the given first element.
    pub fn prefix(&self, prefix: T::Prefix) -> (r: Prefix<T::Suffix, (), C>)
        requires
            fits_len(self@),
            all_fit(prefix.spec_raw_prefixes()),
        ensures
            r@ == len_prefixed(self@) + join_prefixed(prefix.spec_raw_prefixes()),
    {
        let raw = prefix.raw_prefixes();
        let r = Prefix::new(self.namespace, raw.as_slice());
        proof {
            assert(r@ =~= len_prefixed(self@) + join_prefixed(prefix.spec_raw_prefixes()));
        }
        r
    }
}

/// Describes a storage handle whose values have a known type and encoding.
pub trait WithEncodingSchema {
    type Target;
    type EncodingSchema;
}

impl<T, C> WithEncodingSchema for Path<T, C> {
    type Target = T;
    type EncodingSchema = C;
}

impl<T, C> WithEncodingSchema for Item<T, C> {
    type Target = T;
    type EncodingSchema = C;
}

impl<'a, K, T, C> WithEncodingSchema for StorageMap<'a, K, T, C> {
    type Target = T;
    type EncodingSchema = C;
}

} // verus!
