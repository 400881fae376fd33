pub mod resources;
pub mod server;

pub use resources::ResourcesRequest;
pub use server::ServerRequest;
