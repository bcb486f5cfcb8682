use vstd::prelude::*;

verus! {

/// The views of a sequence of byte vectors.
pub open spec fn views(v: Seq<Vec<u8>>) -> Seq<Seq<u8>> {
    v.map_values(|x: Vec<u8>| x@)
}

/// `b` can carry a two-byte length prefix.
pub open spec fn fits_len(b: Seq<u8>) -> bool {
    b.len() <= 0xffff
}

/// Every byte string of `parts` can carry a two-byte length prefix.
pub open spec fn all_fit(parts: Seq<Seq<u8>>) -> bool {
    forall|i: int| 0 <= i < parts.len() ==> fits_len(#[trigger] parts[i])
}

/// The length of `b` as two big-endian bytes.
pub open spec fn length_bytes(b: Seq<u8>) -> Seq<u8> {
    seq![(b.len() / 256) as u8, (b.len() % 256) as u8]
}

/// `b` preceded by its length as two big-endian bytes.
pub open spec fn len_prefixed(b: Seq<u8>) -> Seq<u8> {
    length_bytes(b) + b
}

/// Each part preceded by its length, one after another.
pub open spec fn join_prefixed(parts: Seq<Seq<u8>>) -> Seq<u8>
    decreases parts.len(),
{
    if parts.len() == 0 {
        Seq::empty()
    } else {
        join_prefixed(parts.drop_last()) + len_prefixed(parts.last())
    }
}

/// A namespace and prefixes, each preceded by its length, then the key as
/// it is.
pub open spec fn namespaced_key(namespace: Option<Seq<u8>>, prefixes: Seq<Seq<u8>>, key: Option<Seq<u8>>) -> Seq<u8> {
    let head = match namespace {
        Some(n) => len_prefixed(n),
        None => Seq::empty(),
    };
    let tail = match key {
        Some(k) => k,
        None => Seq::empty(),
    };
    head + join_prefixed(prefixes) + tail
}

/// The raw keys of a compound key joined into one byte string: each but the
/// last preceded by its length.
pub open spec fn joined(keys: Seq<Seq<u8>>) -> Seq<u8> {
    if keys.len() == 0 {
        Seq::empty()
    } else {
        join_prefixed(keys.drop_last()) + keys.last()
    }
}

/// Every raw key but the last can carry a length prefix.
pub open spec fn joinable(keys: Seq<Seq<u8>>) -> bool {
    keys.len() == 0 || all_fit(keys.drop_last())
}

/// The length of `bytes` as two big-endian bytes; the length must fit in
/// sixteen bits.
pub fn encode_length(bytes: &[u8]) -> (r: [u8; 2])
    requires
        fits_len(bytes@),
    ensures
        r@ == length_bytes(bytes@),
{
    let len = bytes.len();
    let r = [(len / 256) as u8, (len % 256) as u8];
    assert(r@ =~= length_bytes(bytes@));
    r
}

/// Appends `b` to `out`.
pub fn extend_bytes(out: &mut Vec<u8>, b: &[u8])
    ensures
        final(out)@ == old(out)@ + b@,
{
    let mut i: usize = 0;
    while i < b.len()
        invariant
            i <= b@.len(),
            out@ == old(out)@ + b@.subrange(0, i as int),
        decreases b@.len() - i,
    {
        out.push(b[i]);
        i = i + 1;
        proof {
            assert(out@ =~= old(out)@ + b@.subrange(0, i as int));
        }
    }
    proof {
        assert(b@.subrange(0, b@.len() as int) =~= b@);
    }
}

/// Appends `b` to `out`, preceded by its length.
pub fn extend_prefixed(out: &mut Vec<u8>, b: &[u8])
    requires
        fits_len(b@),
    ensures
        final(out)@ == old(out)@ + len_prefixed(b@),
{
    let len = encode_length(b);
    out.push(len[0]);
    out.push(len[1]);
    extend_bytes(out, b);
    proof {
        assert(final(out)@ =~= old(out)@ + len_prefixed(b@));
    }
}

/// Joins a namespace, prefixes and a key into one storage key: the
/// namespace and each prefix preceded by its length as two big-endian bytes,
/// the key as it is.
pub fn nested_namespaces_with_key(namespace: Option<&[u8]>, prefixes: &[Vec<u8>], key: Option<&[u8]>) -> (r: Vec<u8>)
    requires
        namespace matches Some(n) ==> fits_len(n@),
        all_fit(views(prefixes@)),
    ensures
        r@ == namespaced_key(
            match namespace {
                Some(n) => Some(n@),
                None => None,
            },
            views(prefixes@),
            match key {
                Some(k) => Some(k@),
                None => None,
            },
        ),
{
    let mut out: Vec<u8> = Vec::new();
    match namespace {
        Some(n) => {
            extend_prefixed(&mut out, n);
        },
        None => {},
    }
    let ghost head = out@;
    let mut i: usize = 0;
    while i < prefixes.len()
        invariant
            i <= prefixes@.len(),
            all_fit(views(prefixes@)),
            out@ == head + join_prefixed(views(prefixes@).subrange(0, i as int)),
        decreases prefixes@.len() - i,
    {
        proof {
            assert(fits_len(views(prefixes@)[i as int]));
            assert(views(prefixes@).subrange(0, i + 1).drop_last() =~= views(prefixes@).subrange(0, i as int));
        }
        extend_prefixed(&mut out, prefixes[i].as_slice());
        i = i + 1;
        proof {
            assert(out@ =~= head + join_prefixed(views(prefixes@).subrange(0, i as int)));
        }
    }
    proof {
        assert(views(prefixes@).subrange(0, prefixes@.len() as int) =~= views(prefixes@));
    }
    match key {
        Some(k) => {
            extend_bytes(&mut out, k);
        },
        None => {},
    }
    proof {
        let ghost ns = match namespace {
            Some(n) => Some(n@),
            None => None::<Seq<u8>>,
        };
        assert(head == match ns {
            Some(n) => len_prefixed(n),
            None => Seq::<u8>::empty(),
        }) by {
            if namespace is None {
                assert(head =~= Seq::<u8>::empty());
            }
        }
        if key is None {
            assert(out@ =~= out@ + Seq::<u8>::empty());
        }
    }
    out
}

/// The first sub-key of a compound key made of `n` elements, and what
/// follows it; `None` where the bytes end early. Each element but the last
/// keeps its length prefix.
pub open spec fn split_spec(n: nat, v: Seq<u8>) -> Option<(Seq<u8>, Seq<u8>)>
    decreases n,
{
    if n == 0 {
        Some((Seq::empty(), v))
    } else if v.len() < 2 {
        None
    } else {
        let l = v[0] * 256 + v[1];
        if v.len() < 2 + l {
            None
        } else {
            let elem = v.subrange(2, 2 + l);
            match split_spec((n - 1) as nat, v.subrange(2 + l, v.len() as int)) {
                Some((f, r)) => Some((if n > 1 { v.subrange(0, 2) + elem + f } else { elem + f }, r)),
                None => None,
            }
        }
    }
}

/// Splits off the first sub-key, of `key_elems` elements, from the bytes of
/// a compound key; the elements but its last keep their length prefixes.
pub fn split_first_key(key_elems: u8, value: &[u8]) -> (r: (Vec<u8>, &[u8]))
    requires
        split_spec(key_elems as nat, value@) is Some,
    ensures
        split_spec(key_elems as nat, value@) == Some((r.0@, r.1@)),
{
    let mut index: usize = 0;
    let mut first_key: Vec<u8> = Vec::new();
    let mut i: u8 = 0;
    proof {
        assert(value@.subrange(0, value@.len() as int) =~= value@);
        match split_spec(key_elems as nat, value@) {
            Some((f, r)) => {
                assert(first_key@ + f =~= f);
            },
            None => {},
        }
    }
    while i < key_elems
        invariant
            i <= key_elems,
            index <= value@.len(),
            split_spec((key_elems - i) as nat, value@.subrange(index as int, value@.len() as int)) is Some,
            split_spec(key_elems as nat, value@) == (match split_spec(
                (key_elems - i) as nat,
                value@.subrange(index as int, value@.len() as int),
            ) {
                Some((f, r)) => Some((first_key@ + f, r)),
                None => None,
            }),
        decreases key_elems - i,
    {
        let ghost rest = value@.subrange(index as int, value@.len() as int);
        let hi = value[index];
        let lo = value[index + 1];
        let elem_len = (hi as usize) * 256 + lo as usize;
        proof {
            assert(rest[0] == hi && rest[1] == lo);
            let ghost l = rest[0] * 256 + rest[1];
            assert(rest.subrange(2 + l, rest.len() as int) =~= value@.subrange(index + 2 + elem_len, value@.len() as int));
            assert(rest.subrange(2, 2 + l) =~= value@.subrange(index + 2, index + 2 + elem_len));
            assert(rest.subrange(0, 2) =~= seq![hi, lo]);
        }
        let ghost old_first = first_key@;
        if i < key_elems - 1 {
            first_key.push(hi);
            first_key.push(lo);
        }
        let elem = vstd::slice::slice_subrange(value, index + 2, index + 2 + elem_len);
        extend_bytes(&mut first_key, elem);
        let ghost n = (key_elems - i) as nat;
        index = index + 2 + elem_len;
        i = i + 1;
        proof {
            let ghost next = value@.subrange(index as int, value@.len() as int);
            let ghost part = if n > 1 { seq![hi, lo] + elem@ } else { elem@ };
            assert(first_key@ =~= old_first + part);
            match split_spec((n - 1) as nat, next) {
                Some((f, r)) => {
                    assert(split_spec(n, rest) == Some((part + f, r)));
                    assert(first_key@ + f =~= old_first + (part + f));
                },
                None => {},
            }
        }
    }
    proof {
        assert(split_spec(0, value@.subrange(index as int, value@.len() as int)) == Some(
            (Seq::<u8>::empty(), value@.subrange(index as int, value@.len() as int)),
        ));
        assert(first_key@ + Seq::<u8>::empty() =~= first_key@);
    }
    let remainder = vstd::slice::slice_subrange(value, index, value.len());
    (first_key, remainder)
}

} // verus!
