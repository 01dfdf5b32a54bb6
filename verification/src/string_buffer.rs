use vstd::prelude::*;
use vstd::string::StringSliceAdditionalSpecFns;
use vstd::utf8::valid_utf8;
use vstd::utf8::valid_utf8_concat;
use vstd::utf8::encode_utf8_valid_utf8;

verus! {

/// `core::str::from_utf8`: per its documentation, the bytes read as a string slice exactly
/// when they are valid UTF-8, and the slice then holds those same bytes.
#[verifier::external_body]
fn str_from_utf8(bytes: &[u8]) -> (s: Option<&str>)
    ensures
        s is Some <==> valid_utf8(bytes@),
        s matches Some(text) ==> text.spec_bytes() == bytes@,
{
    core::str::from_utf8(bytes).ok()
}

/// A byte sequence of ASCII bytes is valid UTF-8.
pub proof fn lemma_ascii_valid_utf8(bytes: Seq<u8>)
    requires
        forall|i: int| 0 <= i < bytes.len() ==> #[trigger] bytes[i] < 0x80,
    ensures
        valid_utf8(bytes),
    decreases bytes.len(),
{
    if bytes.len() > 0 {
        let rest = bytes.subrange(1, bytes.len() as int);
        lemma_ascii_valid_utf8(rest);
        assert(vstd::utf8::pop_first_scalar(bytes) =~= rest);
    }
}

/// The content after writing `pieces` one after the other into a buffer of `capacity`
/// bytes holding `content`, stopping at the first piece that does not fit.
pub open spec fn write_pieces(content: Seq<u8>, pieces: Seq<Seq<u8>>, capacity: nat) -> Seq<u8>
    decreases pieces.len(),
{
    if pieces.len() == 0 {
        content
    } else if content.len() + pieces[0].len() > capacity {
        content
    } else {
        write_pieces(content + pieces[0], pieces.drop_first(), capacity)
    }
}

/// The content after writing each of `pieces` into a buffer of `capacity` bytes holding
/// `content`, skipping any piece that does not fit.
pub open spec fn write_each(content: Seq<u8>, pieces: Seq<Seq<u8>>, capacity: nat) -> Seq<u8>
    decreases pieces.len(),
{
    if pieces.len() == 0 {
        content
    } else {
        let before = write_each(content, pieces.drop_last(), capacity);
        if before.len() + pieces.last().len() > capacity {
            before
        } else {
            before + pieces.last()
        }
    }
}

/// The decimal digits of `n`, most significant first, without leading zeros.
pub open spec fn decimal(n: nat) -> Seq<u8>
    decreases n,
{
    if n < 10 {
        seq![(48 + n) as u8]
    } else {
        decimal(n / 10).push((48 + n % 10) as u8)
    }
}

/// `10^n` for the digit counts of a `u16`.
pub open spec fn small_pow10(n: nat) -> int {
    if n == 0 {
        1
    } else if n == 1 {
        10
    } else if n == 2 {
        100
    } else if n == 3 {
        1000
    } else if n == 4 {
        10000
    } else {
        100000
    }
}

/// A string of at most `N` bytes in a fixed buffer.
pub struct StringBuffer<const N: usize> {
    buf: [u8; N],
    len: usize,
}

impl<const N: usize> View for StringBuffer<N> {
    type V = Seq<u8>;

    /// The bytes written so far.
    closed spec fn view(&self) -> Seq<u8> {
        self.buf@.take(self.len as int)
    }
}

impl<const N: usize> StringBuffer<N> {
    #[verifier::type_invariant]
    spec fn holds_text(self) -> bool {
        &&& self.len <= N
        &&& valid_utf8(self.buf@.take(self.len as int))
    }

    /// An empty buffer.
    pub fn new() -> (b: Self)
        ensures
            b@ == Seq::<u8>::empty(),
    {
        let b = Self { buf: [0; N], len: 0 };
        assert(b.buf@.take(0) =~= Seq::<u8>::empty());
        b
    }

    /// The content as a string slice.
    pub fn as_str(&self) -> (s: &str)
        ensures
            s.spec_bytes() == self@,
    {
        proof {
            use_type_invariant(self);
        }
        let (content, _) = self.buf.as_slice().split_at(self.len);
        match str_from_utf8(content) {
            Some(s) => s,
            None => {
                assert(false);
                ""
            },
        }
    }

    /// Appends `bytes` if they fit; otherwise leaves the buffer unchanged and fails.
    fn push_bytes(&mut self, bytes: &[u8]) -> (r: Result<(), ()>)
        requires
            valid_utf8(bytes@),
        ensures
            old(self)@.len() + bytes@.len() > N ==> r is Err && final(self)@ == old(self)@,
            old(self)@.len() + bytes@.len() <= N ==> r is Ok && final(self)@ == old(self)@
                + bytes@,
    {
        proof {
            use_type_invariant(&*self);
        }
        if bytes.len() > N - self.len {
            return Err(());
        }
        let ghost before = self@;
        let mut tmp = self.buf;
        let start = self.len;
        let mut i: usize = 0;
        while i < bytes.len()
            invariant
                start + bytes@.len() <= N,
                i <= bytes@.len(),
                tmp@.len() == N,
                tmp@.take(start as int) == before,
                forall|j: int| 0 <= j < i ==> tmp@[start + j] == bytes@[j],
            decreases bytes.len() - i,
        {
            let ghost t = tmp@;
            tmp[start + i] = bytes[i];
            assert(tmp@.take(start as int) =~= t.take(start as int));
            i += 1;
        }
        let new_len = start + bytes.len();
        assert(tmp@.take(new_len as int) =~= before + bytes@);
        proof {
            valid_utf8_concat(before, bytes@);
        }
        *self = Self { buf: tmp, len: new_len };
        Ok(())
    }

    /// Appends `s` if it fits; otherwise leaves the buffer unchanged and fails.
    pub fn write_str(&mut self, s: &str) -> (r: Result<(), ()>)
        ensures
            old(self)@.len() + s.spec_bytes().len() > N ==> r is Err && final(self)@ == old(
                self,
            )@,
            old(self)@.len() + s.spec_bytes().len() <= N ==> r is Ok && final(self)@ == old(
                self,
            )@ + s.spec_bytes(),
    {
        let bytes = s.as_bytes();
        proof {
            encode_utf8_valid_utf8(s@);
        }
        self.push_bytes(bytes)
    }

    /// Appends the decimal digits of `n` if they fit; otherwise leaves the buffer unchanged
    /// and fails.
    pub fn write_u16(&mut self, n: u16) -> (r: Result<(), ()>)
        ensures
            old(self)@.len() + decimal(n as nat).len() > N ==> r is Err && final(self)@ == old(
                self,
            )@,
            old(self)@.len() + decimal(n as nat).len() <= N ==> r is Ok && final(self)@ == old(
                self,
            )@ + decimal(n as nat),
    {
        let mut digits = [0u8; 5];
        let mut pos: usize = 5;
        let mut rest: u16 = n;
        assert(digits@.subrange(5, 5) =~= Seq::<u8>::empty());
        loop
            invariant_except_break
                1 <= pos <= 5,
                rest < small_pow10(pos as nat),
                decimal(n as nat) == decimal(rest as nat) + digits@.subrange(pos as int, 5),
            invariant
                digits@.len() == 5,
                pos <= 5,
                forall|j: int| pos <= j < 5 ==> 48 <= #[trigger] digits@[j] < 58,
            ensures
                pos < 5,
                digits@.subrange(pos as int, 5) == decimal(n as nat),
            decreases pos,
        {
            let ghost tail = digits@.subrange(pos as int, 5);
            pos -= 1;
            let d = (rest % 10) as u8 + 48;
            digits[pos] = d;
            assert(digits@.subrange(pos as int, 5) =~= seq![d] + tail);
            if rest < 10 {
                assert(decimal(rest as nat) == seq![d]);
                assert(digits@.subrange(pos as int, 5) =~= decimal(n as nat));
                break;
            }
            assert(decimal(rest as nat) == decimal((rest / 10) as nat).push(d));
            assert(decimal((rest / 10) as nat).push(d) + tail =~= decimal((rest / 10) as nat)
                + digits@.subrange(pos as int, 5));
            rest = rest / 10;
        }
        let (_, tail) = digits.as_slice().split_at(pos);
        assert(tail@ =~= digits@.subrange(pos as int, 5));
        proof {
            lemma_ascii_valid_utf8(tail@);
        }
        self.push_bytes(tail)
    }
}

} // verus!
