use vstd::prelude::*;

verus! {

/// Flag byte of an encoded [`HummockValue::Delete`].
pub const VALUE_DELETE: u8 = 1;

/// Flag byte of an encoded [`HummockValue::Put`].
pub const VALUE_PUT: u8 = 0;

/// A value as the state store keeps it: a user value, or a tombstone.
///
/// Its encoding is a one-byte flag followed by the user value.
#[derive(Clone, Debug, PartialEq, Eq)]
pub enum HummockValue<T> {
    Put(T),
    Delete,
}

/// Why a byte string is not an encoded value.
#[derive(Clone, Copy, Debug, PartialEq, Eq, Structural)]
pub enum HummockError {
    /// The input holds no bytes at all.
    EmptyValue,
    /// The flag byte is neither [`VALUE_PUT`] nor [`VALUE_DELETE`].
    InvalidFlag,
}

/// The encoding of a value: its flag, then for `Put` the user bytes.
pub open spec fn encoding(v: HummockValue<Seq<u8>>) -> Seq<u8> {
    match v {
        HummockValue::Put(b) => seq![VALUE_PUT].add(b),
        HummockValue::Delete => seq![VALUE_DELETE],
    }
}

/// What a byte string decodes to.
pub open spec fn decoding(b: Seq<u8>) -> Result<HummockValue<Seq<u8>>, HummockError> {
    if b.len() == 0 {
        Err(HummockError::EmptyValue)
    } else if b[0] == VALUE_PUT {
        Ok(HummockValue::Put(b.subrange(1, b.len() as int)))
    } else if b[0] == VALUE_DELETE {
        Ok(HummockValue::Delete)
    } else {
        Err(HummockError::InvalidFlag)
    }
}

/// Appends `src` to `dst`.
fn append_bytes(dst: &mut Vec<u8>, src: &[u8])
    ensures
        final(dst)@ == old(dst)@.add(src@),
{
    let mut i: usize = 0;
    while i < src.len()
        invariant
            0 <= i <= src@.len(),
            dst@ == old(dst)@.add(src@.subrange(0, i as int)),
        decreases src@.len() - i,
    {
        dst.push(src[i]);
        i += 1;
        assert(dst@ =~= old(dst)@.add(src@.subrange(0, i as int)));
    }
    assert(src@.subrange(0, src@.len() as int) =~= src@);
}

impl HummockValue<Vec<u8>> {
    pub open spec fn bytes_view(&self) -> HummockValue<Seq<u8>> {
        match self {
            HummockValue::Put(v) => HummockValue::Put(v@),
            HummockValue::Delete => HummockValue::Delete,
        }
    }

    /// The length of the encoding.
    pub fn encoded_len(&self) -> (r: usize)
        requires
            self matches HummockValue::Put(v) ==> v@.len() < usize::MAX,
        ensures
            r == encoding(self.bytes_view()).len(),
    {
        match self {
            HummockValue::Put(val) => 1 + val.len(),
            HummockValue::Delete => 1,
        }
    }

    /// Appends the encoding to `buffer`.
    pub fn encode(&self, buffer: &mut Vec<u8>)
        ensures
            final(buffer)@ == old(buffer)@.add(encoding(self.bytes_view())),
    {
        match self {
            HummockValue::Put(val) => {
                buffer.push(VALUE_PUT);
                append_bytes(buffer, val.as_slice());
            },
            HummockValue::Delete => {
                buffer.push(VALUE_DELETE);
            },
        }
        assert(final(buffer)@ =~= old(buffer)@.add(encoding(self.bytes_view())));
    }

    /// The user value of a `Put`, `None` for a tombstone.
    pub fn into_put_value(self) -> (r: Option<Vec<u8>>)
        ensures
            match self {
                HummockValue::Put(v) => r == Some(v),
                HummockValue::Delete => r is None,
            },
    {
        match self {
            HummockValue::Put(val) => Some(val),
            HummockValue::Delete => None,
        }
    }

    /// Decodes a value, copying the user bytes. A non-empty buffer is moved
    /// past its flag byte.
    pub fn decode(buffer: &mut &[u8]) -> (r: Result<HummockValue<Vec<u8>>, HummockError>)
        ensures
            match r {
                Ok(v) => decoding(old(buffer)@) == Ok::<_, HummockError>(v.bytes_view()),
                Err(e) => decoding(old(buffer)@) == Err::<HummockValue<Seq<u8>>, _>(e),
            },
            old(buffer)@.len() == 0 ==> final(buffer)@ == old(buffer)@,
            old(buffer)@.len() > 0 ==> final(buffer)@ == old(buffer)@.subrange(
                1,
                old(buffer)@.len() as int,
            ),
    {
        if buffer.len() == 0 {
            return Err(HummockError::EmptyValue);
        }
        let flag = buffer[0];
        *buffer = vstd::slice::slice_subrange(*buffer, 1, buffer.len());
        if flag == VALUE_PUT {
            let mut v: Vec<u8> = Vec::new();
            append_bytes(&mut v, *buffer);
            assert(v@ =~= old(buffer)@.subrange(1, old(buffer)@.len() as int));
            Ok(HummockValue::Put(v))
        } else if flag == VALUE_DELETE {
            Ok(HummockValue::Delete)
        } else {
            Err(HummockError::InvalidFlag)
        }
    }
}

impl<'a> HummockValue<&'a [u8]> {
    pub open spec fn slice_view(&self) -> HummockValue<Seq<u8>> {
        match self {
            HummockValue::Put(v) => HummockValue::Put(v@),
            HummockValue::Delete => HummockValue::Delete,
        }
    }

    /// Decodes a value, borrowing the user bytes from `buffer`.
    pub fn from_slice(buffer: &'a [u8]) -> (r: Result<HummockValue<&'a [u8]>, HummockError>)
        ensures
            match r {
                Ok(v) => decoding(buffer@) == Ok::<_, HummockError>(v.slice_view()),
                Err(e) => decoding(buffer@) == Err::<HummockValue<Seq<u8>>, _>(e),
            },
    {
        if buffer.len() == 0 {
            return Err(HummockError::EmptyValue);
        }
        let flag = buffer[0];
        if flag == VALUE_PUT {
            Ok(HummockValue::Put(vstd::slice::slice_subrange(buffer, 1, buffer.len())))
        } else if flag == VALUE_DELETE {
            Ok(HummockValue::Delete)
        } else {
            Err(HummockError::InvalidFlag)
        }
    }
}

/// Decoding an encoded value gives the value back.
pub proof fn lemma_decode_encode(v: HummockValue<Seq<u8>>)
    ensures
        decoding(encoding(v)) == Ok::<_, HummockError>(v),
{
    if let HummockValue::Put(b) = v {
        assert(encoding(v).subrange(1, encoding(v).len() as int) =~= b);
    }
}

} // verus!
