pub mod errors;
pub mod models;
pub mod codec;
pub mod utils;
pub mod cache;
pub mod resolve;

pub use models::{ApiResponse, ApiResponseError, RateEntry};
pub use utils::parse_code;
