//! Parameters of a statement.

use vstd::prelude::*;
use vstd::string::*;

use crate::error::{Error, ErrorView};

verus! {

/// The values of a parameter list, `None` for NULL.
pub open spec fn values_of(values: Seq<Option<Vec<u8>>>) -> Seq<Option<Seq<u8>>> {
    values.map_values(
        |v: Option<Vec<u8>>|
            match v {
                Some(b) => Some(b@),
                None => None,
            },
    )
}

/// A set of parameters that can be bound to a statement.
pub trait ToParams {
    /// The type OIDs that the parameters have of themselves.
    spec fn natural(&self) -> Seq<u32>;

    /// The values in binary form for a statement with these parameter types.
    spec fn encoded(&self, oids: Seq<u32>) -> Result<Seq<Option<Seq<u8>>>, ErrorView>;

    /// The type OIDs that the parameters have of themselves.
    fn natural_oids(&self) -> (r: Vec<u32>)
        ensures
            r@ == self.natural(),
    ;

    /// The values in binary form for a statement with these parameter types.
    fn encode(&self, oids: &[u32]) -> (r: Result<Vec<Option<Vec<u8>>>, Error>)
        ensures
            match r {
                Ok(values) => self.encoded(oids@) == Ok::<Seq<Option<Seq<u8>>>, ErrorView>(
                    values_of(values@),
                ),
                Err(e) => self.encoded(oids@) == Err::<Seq<Option<Seq<u8>>>, ErrorView>(e@),
            },
    ;
}

/// The error for a parameter list of the wrong length.
pub open spec fn wrong_count() -> ErrorView {
    ErrorView::Encode("wrong number of parameters"@)
}

fn wrong_count_error() -> (e: Error)
    ensures
        e@ == wrong_count(),
{
    Error::Encode(String::from_str("wrong number of parameters"))
}

impl ToParams for () {
    open spec fn natural(&self) -> Seq<u32> {
        Seq::empty()
    }

    open spec fn encoded(&self, oids: Seq<u32>) -> Result<Seq<Option<Seq<u8>>>, ErrorView> {
        if oids.len() == 0 {
            Ok(Seq::empty())
        } else {
            Err(wrong_count())
        }
    }

    fn natural_oids(&self) -> (r: Vec<u32>) {
        Vec::new()
    }

    fn encode(&self, oids: &[u32]) -> (r: Result<Vec<Option<Vec<u8>>>, Error>) {
        if oids.len() == 0 {
            let values: Vec<Option<Vec<u8>>> = Vec::new();
            assert(values_of(values@) =~= Seq::empty());
            Ok(values)
        } else {
            Err(wrong_count_error())
        }
    }
}

/// Parameters that are in binary form already, with their types.
#[derive(Debug)]
pub struct Params {
    pub oids: Vec<u32>,
    pub values: Vec<Option<Vec<u8>>>,
}

impl ToParams for Params {
    open spec fn natural(&self) -> Seq<u32> {
        self.oids@
    }

    open spec fn encoded(&self, oids: Seq<u32>) -> Result<Seq<Option<Seq<u8>>>, ErrorView> {
        if oids.len() == self.values@.len() {
            Ok(values_of(self.values@))
        } else {
            Err(wrong_count())
        }
    }

    fn natural_oids(&self) -> (r: Vec<u32>) {
        copy_oids(self.oids.as_slice())
    }

    fn encode(&self, oids: &[u32]) -> (r: Result<Vec<Option<Vec<u8>>>, Error>) {
        if oids.len() != self.values.len() {
            return Err(wrong_count_error());
        }
        let mut values: Vec<Option<Vec<u8>>> = Vec::new();
        let mut i: usize = 0;
        while i < self.values.len()
            invariant
                i <= self.values@.len(),
                values_of(values@) == values_of(self.values@).take(i as int),
            decreases self.values@.len() - i,
        {
            let ghost before = values@;
            let value = match &self.values[i] {
                Some(bytes) => Some(copy_bytes(bytes.as_slice())),
                None => None,
            };
            values.push(value);
            i = i + 1;
            assert(values_of(values@) =~= values_of(before).push(values_of(self.values@)[i - 1]));
            assert(values_of(self.values@).take(i as int) =~= values_of(self.values@).take(
                i - 1,
            ).push(values_of(self.values@)[i - 1]));
        }
        assert(values_of(self.values@).take(i as int) =~= values_of(self.values@));
        Ok(values)
    }
}

/// A copy of a list of type OIDs.
pub fn copy_oids(oids: &[u32]) -> (r: Vec<u32>)
    ensures
        r@ == oids@,
{
    let mut out: Vec<u32> = Vec::new();
    let mut i: usize = 0;
    while i < oids.len()
        invariant
            i <= oids@.len(),
            out@ == oids@.take(i as int),
        decreases oids@.len() - i,
    {
        out.push(oids[i]);
        i = i + 1;
        assert(oids@.take(i as int) =~= oids@.take(i - 1).push(oids@[i - 1]));
    }
    assert(oids@.take(i as int) =~= oids@);
    out
}

/// A copy of a byte string.
pub fn copy_bytes(bytes: &[u8]) -> (r: Vec<u8>)
    ensures
        r@ == bytes@,
{
    let mut out: Vec<u8> = Vec::new();
    crate::protocol::wire::push_bytes(&mut out, bytes);
    assert(out@ =~= bytes@);
    out
}

/// Parameters in binary form are bound as they are, NULL as NULL, to a statement with as many
/// parameters, and to no other.
pub proof fn binary_parameters_are_bound_as_they_are(
    params: &Params,
    oids: &[u32],
    r: Result<Vec<Option<Vec<u8>>>, Error>,
    natural: Vec<u32>,
)
    requires
        call_ensures(<Params as ToParams>::encode, (params, oids), r),
        call_ensures(<Params as ToParams>::natural_oids, (params,), natural),
    ensures
        natural@ == params.oids@,
        r is Ok <==> oids@.len() == params.values@.len(),
        r matches Err(e) ==> e@ == ErrorView::Encode("wrong number of parameters"@),
        r matches Ok(values) ==> values@.len() == params.values@.len() && forall|i: int|
            0 <= i < values@.len() ==> match params.values@[i] {
                Some(b) => #[trigger] values@[i] matches Some(c) && c@ == b@,
                None => values@[i] is None,
            },
{
    if let Ok(values) = r {
        assert(values_of(values@) == values_of(params.values@));
        assert forall|i: int| 0 <= i < values@.len() implies match params.values@[i] {
            Some(b) => #[trigger] values@[i] matches Some(c) && c@ == b@,
            None => values@[i] is None,
        } by {
            assert(values_of(values@)[i] == values_of(params.values@)[i]);
        }
    }
}

/// What contracts say of encoded parameters is what they are: each value by its bytes.
pub proof fn values_are_their_bytes(values: Seq<Option<Vec<u8>>>, i: int)
    requires
        0 <= i < values.len(),
    ensures
        values_of(values).len() == values.len(),
        match values[i] {
            Some(b) => values_of(values)[i] == Some(b@),
            None => values_of(values)[i] is None,
        },
{
}

/// No parameters fit a statement without parameters, and no other.
pub proof fn no_parameters_are_none(oids: Seq<u32>)
    ensures
        ().natural().len() == 0,
        match ().encoded(oids) {
            Ok(values) => oids.len() == 0 && values.len() == 0,
            Err(e) => oids.len() > 0 && e == ErrorView::Encode("wrong number of parameters"@),
        },
{
}

} // verus!
