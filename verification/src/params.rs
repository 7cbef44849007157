//! Query parameters: an ordered map from parameter name to an optional
//! value. An absent value means the key appears bare in the query string
//! (for example `?uploads`).

use vstd::prelude::*;

use crate::strmap::SortedMap;

verus! {

/// The query parameters of a request, ordered ascending by key.
pub type Params = SortedMap<Option<String>>;

} // verus!
