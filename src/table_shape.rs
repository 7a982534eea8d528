//! Which JSON shape a script's table takes, decided from its keys alone.

use vstd::prelude::*;

verus! {

/// A table key as the shape decision sees it.
#[derive(Debug, Clone, PartialEq, Eq)]
pub enum TableKey {
    /// A positive whole number: a 1-based array position.
    Index(u64),
    /// A string key.
    Name(String),
    /// Anything else.
    Other,
}

#[derive(Debug, Clone, Copy, PartialEq, Eq, Structural)]
pub enum TableShape {
    /// No keys at all.
    Empty,
    /// Only positions: an array of this length, gaps filled with null.
    Array(u64),
    /// Only string keys: an object.
    Object,
}

#[derive(Debug, Clone, Copy, PartialEq, Eq, Structural)]
pub enum TableKeyError {
    /// Positions mixed with names, or a key of another kind.
    InvalidTableKey,
}

/// The largest position among `keys` (0 when there is none).
pub open spec fn max_index(keys: Seq<TableKey>) -> u64
    decreases keys.len(),
{
    if keys.len() == 0 {
        0
    } else {
        let rest = max_index(keys.drop_last());
        match keys.last() {
            TableKey::Index(i) => if i > rest { i } else { rest },
            _ => rest,
        }
    }
}

pub open spec fn shape_of(keys: Seq<TableKey>) -> Result<TableShape, TableKeyError> {
    if keys.len() == 0 {
        Ok(TableShape::Empty)
    } else if forall|i: int| 0 <= i < keys.len() ==> (#[trigger] keys[i]) is Index {
        Ok(TableShape::Array(max_index(keys)))
    } else if forall|i: int| 0 <= i < keys.len() ==> (#[trigger] keys[i]) is Name {
        Ok(TableShape::Object)
    } else {
        Err(TableKeyError::InvalidTableKey)
    }
}

/// Decides the shape: no keys is empty, only positions an array as long as the
/// largest position, only names an object, and anything else an error.
pub fn table_shape(keys: &Vec<TableKey>) -> (r: Result<TableShape, TableKeyError>)
    ensures
        r == shape_of(keys@),
{
    if keys.len() == 0 {
        return Ok(TableShape::Empty);
    }
    let mut all_index = true;
    let mut all_name = true;
    let mut max: u64 = 0;
    let mut i: usize = 0;
    while i < keys.len()
        invariant
            0 <= i <= keys@.len(),
            max == max_index(keys@.subrange(0, i as int)),
            all_index == forall|j: int| 0 <= j < i ==> (#[trigger] keys@[j]) is Index,
            all_name == forall|j: int| 0 <= j < i ==> (#[trigger] keys@[j]) is Name,
        decreases keys@.len() - i,
    {
        proof {
            assert(keys@.subrange(0, i + 1).drop_last() =~= keys@.subrange(0, i as int));
        }
        match &keys[i] {
            TableKey::Index(n) => {
                all_name = false;
                if *n > max {
                    max = *n;
                }
            },
            TableKey::Name(_) => {
                all_index = false;
            },
            TableKey::Other => {
                all_index = false;
                all_name = false;
            },
        }
        i = i + 1;
    }
    assert(keys@.subrange(0, keys@.len() as int) =~= keys@);
    if all_index {
        Ok(TableShape::Array(max))
    } else if all_name {
        Ok(TableShape::Object)
    } else {
        Err(TableKeyError::InvalidTableKey)
    }
}

} // verus!
