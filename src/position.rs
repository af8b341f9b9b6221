use vstd::prelude::*;
use vstd::string::StringSliceAdditionalSpecFns;
use crate::text::{fields, find_byte, int_text, parse_i64, trim_text, trimmed};

verus! {

/// An ordered, fixed-length list of pixel x-offsets, one per binary digit slot.
#[derive(Clone, Copy, Debug)]
pub struct Positions<const N: usize>(pub [i64; N]);

/// Positions of the hour row: five slots cover 0..24.
pub type Hour = Positions<5>;

/// Positions of the minute row: six slots cover 0..60.
pub type Minute = Positions<6>;

impl<const N: usize> View for Positions<N> {
    type V = Seq<i64>;

    open spec fn view(&self) -> Seq<i64> {
        self.0@
    }
}

impl<const N: usize> Positions<N> {
    /// Every coordinate, in slot order.
    pub fn iter(&self) -> (r: &[i64])
        ensures
            r@ == self@,
    {
        self.0.as_slice()
    }

    /// Coordinate at `index`.
    pub fn index(&self, index: usize) -> (r: i64)
        requires
            index < N,
        ensures
            r == self@[index as int],
    {
        self.0[index]
    }

    /// The first `M` coordinates, in order.
    pub fn resize<const M: usize>(&self) -> (r: Positions<M>)
        requires
            M <= N,
        ensures
            r@ == self@.subrange(0, M as int),
    {
        broadcast use vstd::array::group_array_axioms;
        let mut new: [i64; M] = [0i64; M];
        let mut i: usize = 0;
        while i < M
            invariant
                M <= N,
                i <= M,
                new@.len() == M,
                self@.len() == N,
                forall|j: int| 0 <= j < i ==> new@[j] == self@[j],
            decreases M - i,
        {
            new[i] = self.0[i];
            i = i + 1;
        }
        let r = Positions(new);
        assert(r@ =~= self@.subrange(0, M as int));
        r
    }

    /// The coordinate at `i` as a one-slot list.
    pub fn single(&self, i: usize) -> (r: Positions<1>)
        requires
            i < N,
        ensures
            r@ == seq![self@[i as int]],
    {
        let r = Positions([self.0[i]]);
        assert(r@ =~= seq![self@[i as int]]);
        r
    }
}

} // verus!

verus! {

/// Why a list of coordinates could not be read.
#[derive(Debug)]
pub enum PositionParseError {
    /// A field is not a decimal integer.
    ParseIntError(std::num::ParseIntError),
    /// The list holds this many fields, not the arity asked for.
    AmountError(usize),
}

/// The integers that the fields of a comma-separated list spell once
/// trimmed, `None` where a field spells none.
pub open spec fn field_values(s: Seq<char>) -> Seq<Option<i64>> {
    fields(s).map_values(|f: Seq<char>| int_text(trimmed(f)))
}

/// Every field of the list spells an integer.
pub open spec fn all_fields_parse(s: Seq<char>) -> bool {
    forall|i: int| 0 <= i < field_values(s).len() ==> (#[trigger] field_values(s)[i]) is Some
}

/// The fields of a prefix that a longer text completes stay as they are.
proof fn lemma_fields_prefix(s: Seq<char>, m: int)
    requires
        0 <= m <= s.len(),
    ensures
        fields(s).len() >= fields(s.subrange(0, m)).len(),
        forall|j: int|
            0 <= j < fields(s.subrange(0, m)).len() - 1 ==> fields(s)[j] == fields(
                s.subrange(0, m),
            )[j],
    decreases s.len() - m,
{
    crate::text::lemma_fields_nonempty(s);
    if m < s.len() {
        assert(s.drop_last().subrange(0, m) =~= s.subrange(0, m));
        lemma_fields_prefix(s.drop_last(), m);
        crate::text::lemma_fields_nonempty(s.drop_last());
    } else {
        assert(s.subrange(0, m) =~= s);
    }
}

impl<const N: usize> Positions<N> {
    /// Reads `N` comma-separated integers; white space around each is
    /// ignored.
    pub fn from_text(s: &str) -> (r: Result<Positions<N>, PositionParseError>)
        ensures
            r is Ok <==> all_fields_parse(s@) && fields(s@).len() == N,
            r matches Ok(p) ==> forall|i: int|
                0 <= i < N ==> Some(#[trigger] p@[i]) == field_values(s@)[i],
            (r matches Err(PositionParseError::AmountError(k)) && k == fields(s@).len())
                <==> (all_fields_parse(s@) && fields(s@).len() != N),
            r matches Err(PositionParseError::ParseIntError(_)) <==> !all_fields_parse(s@),
    {
        broadcast use vstd::array::group_array_axioms;
        let n = s.unicode_len();
        let mut values: Vec<i64> = Vec::new();
        let ghost mut done: Seq<Seq<char>> = Seq::empty();
        let mut start: usize = 0;
        let mut i: usize = 0;
        assert(s@.subrange(0, 0) =~= Seq::<char>::empty());
        while i < n
            invariant
                n == s@.len(),
                start <= i <= n,
                fields(s@.subrange(0, i as int)) == done.push(s@.subrange(start as int, i as int)),
                values@.len() == done.len(),
                forall|j: int|
                    0 <= j < done.len() ==> int_text(trimmed(#[trigger] done[j])) == Some(
                        values@[j],
                    ),
            decreases n - i,
        {
            let pre = Ghost(s@.subrange(0, i as int + 1));
            assert(pre@.drop_last() =~= s@.subrange(0, i as int));
            if s.get_char(i) == ',' {
                let piece = s.substring_char(start, i);
                let t = trim_text(piece);
                proof {
                    crate::text::lemma_fields_nonempty(s@);
                    lemma_fields_prefix(s@, i + 1);
                    assert(fields(pre@) == done.push(piece@).push(Seq::empty()));
                    assert(fields(s@)[done.len() as int] == piece@);
                    assert(field_values(s@)[done.len() as int] == int_text(t@));
                }
                match parse_i64(t) {
                    Ok(v) => {
                        values.push(v);
                        proof {
                            done = done.push(piece@);
                        }
                    },
                    Err(e) => {
                        return Err(PositionParseError::ParseIntError(e));
                    },
                }
                start = i + 1;
                assert(s@.subrange(start as int, start as int) =~= Seq::<char>::empty());
            } else {
                assert(s@.subrange(start as int, i as int + 1) =~= s@.subrange(
                    start as int,
                    i as int,
                ).push(s@[i as int]));
            }
            i = i + 1;
        }
        let piece = s.substring_char(start, n);
        let t = trim_text(piece);
        proof {
            assert(s@.subrange(0, n as int) =~= s@);
            assert(field_values(s@)[done.len() as int] == int_text(t@));
        }
        match parse_i64(t) {
            Ok(v) => {
                values.push(v);
                proof {
                    done = done.push(piece@);
                }
            },
            Err(e) => {
                return Err(PositionParseError::ParseIntError(e));
            },
        }
        assert(forall|j: int|
            0 <= j < field_values(s@).len() ==> field_values(s@)[j] == Some(values@[j]));
        if values.len() != N {
            return Err(PositionParseError::AmountError(values.len()));
        }
        let mut arr: [i64; N] = [0i64; N];
        let mut k: usize = 0;
        while k < N
            invariant
                k <= N,
                values@.len() == N,
                arr@.len() == N,
                forall|j: int| 0 <= j < k ==> arr@[j] == values@[j],
            decreases N - k,
        {
            arr[k] = values[k];
            k = k + 1;
        }
        Ok(Positions(arr))
    }
}

/// A row's y-axis: one coordinate shared by every slot, or one per slot.
#[derive(Clone, Copy, Debug)]
pub enum YAxis<Time> {
    /// A single y-axis position repeated for each x-axis position.
    Singular(i64),
    /// Each x-axis position has its own y-axis position.
    Variable(Time),
}

impl<const N: usize> YAxis<Positions<N>> {
    /// The y coordinate of slot `i`.
    pub open spec fn value_at(&self, i: int) -> i64 {
        match self {
            YAxis::Singular(v) => *v,
            YAxis::Variable(p) => p@[i],
        }
    }

    /// The y coordinate of slot `index`.
    pub fn index(&self, index: usize) -> (r: i64)
        requires
            (*self matches YAxis::Variable(_)) ==> index < N,
        ensures
            r == self.value_at(index as int),
    {
        match self {
            YAxis::Singular(v) => *v,
            YAxis::Variable(p) => p.index(index),
        }
    }

    /// The first `M` slots; a shared coordinate stays shared.
    pub fn resize<const M: usize>(&self) -> (r: YAxis<Positions<M>>)
        requires
            (*self matches YAxis::Variable(_)) ==> M <= N,
        ensures
            *self matches YAxis::Singular(v) ==> r == YAxis::<Positions<M>>::Singular(v),
            *self matches YAxis::Variable(p) ==> r matches YAxis::Variable(q) && q@ == p@.subrange(
                0,
                M as int,
            ),
            forall|i: int| 0 <= i < M ==> r.value_at(i) == self.value_at(i),
    {
        match self {
            YAxis::Variable(positions) => YAxis::Variable(positions.resize::<M>()),
            YAxis::Singular(i) => YAxis::Singular(*i),
        }
    }

    /// Slot `i` alone; a shared coordinate stays shared.
    pub fn single(&self, i: usize) -> (r: YAxis<Positions<1>>)
        requires
            (*self matches YAxis::Variable(_)) ==> i < N,
        ensures
            *self matches YAxis::Singular(v) ==> r == YAxis::<Positions<1>>::Singular(v),
            *self matches YAxis::Variable(p) ==> r matches YAxis::Variable(q) && q@ == seq![
                p@[i as int],
            ],
            r.value_at(0) == self.value_at(i as int),
    {
        match self {
            YAxis::Variable(positions) => YAxis::Variable(positions.single(i)),
            YAxis::Singular(v) => YAxis::Singular(*v),
        }
    }

    /// Reads a y-axis: a text holding a comma is one coordinate per slot,
    /// any other text is a single shared integer.
    pub fn from_text(s: &str) -> (r: Result<YAxis<Positions<N>>, PositionParseError>)
        ensures
            s.spec_bytes().contains(44u8) ==> match r {
                Ok(YAxis::Variable(p)) => all_fields_parse(s@) && fields(s@).len() == N
                    && forall|i: int| 0 <= i < N ==> Some(#[trigger] p@[i]) == field_values(s@)[i],
                Ok(YAxis::Singular(_)) => false,
                Err(PositionParseError::AmountError(k)) => k == fields(s@).len()
                    && all_fields_parse(s@) && fields(s@).len() != N,
                Err(PositionParseError::ParseIntError(_)) => !all_fields_parse(s@),
            },
            !s.spec_bytes().contains(44u8) ==> match r {
                Ok(YAxis::Singular(v)) => int_text(s@) == Some(v),
                Ok(YAxis::Variable(_)) => false,
                Err(PositionParseError::AmountError(_)) => false,
                Err(PositionParseError::ParseIntError(_)) => int_text(s@) is None,
            },
    {
        if find_byte(44u8, s.as_bytes()).is_some() {
            match Positions::<N>::from_text(s) {
                Ok(p) => Ok(YAxis::Variable(p)),
                Err(e) => Err(e),
            }
        } else {
            match parse_i64(s) {
                Ok(v) => Ok(YAxis::Singular(v)),
                Err(e) => Err(PositionParseError::ParseIntError(e)),
            }
        }
    }
}

impl<const N: usize> std::str::FromStr for Positions<N> {
    type Err = PositionParseError;

    fn from_str(s: &str) -> Result<Self, PositionParseError> {
        Positions::from_text(s)
    }
}

impl<const N: usize> std::str::FromStr for YAxis<Positions<N>> {
    type Err = PositionParseError;

    fn from_str(s: &str) -> Result<Self, PositionParseError> {
        YAxis::from_text(s)
    }
}

} // verus!
