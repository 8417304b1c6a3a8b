pub mod bounce;
pub mod pipeline;
pub mod radiance;
pub mod utils;

pub use bounce::{bounces, Bounce, Direction, Finish, Fresnel, Probability};
pub use pipeline::accumulate_row;
pub use radiance::{closest_hit, next_step, Step};
pub use utils::inspect;
