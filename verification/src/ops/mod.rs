pub mod cargo_dlx;
