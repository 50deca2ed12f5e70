//! The items that most callers need.

pub use crate::cell::DCell;
pub use crate::dataframe::{DataFrame, DataFrameLike};
pub use crate::dtype::{DataType, DType};
pub use crate::error::{RaccoonError, RaccoonResult};
pub use crate::float::{Answer, FloatOp, Outcome};
pub use crate::series::{MixedSeries, Series, SeriesLike};
pub use crate::traits::{AsType, Primitive, TryFrom, Typed};
pub use crate::utils::vec_dtype;
