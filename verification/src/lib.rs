//! The decisions of a service for short links, verified.
//!
//! [`rate_limit`] decides who may create links and how often, [`client`] tells clients apart,
//! [`dto`] says which requests are acceptable, [`handlers`] decides what each route asks the
//! repository and what it answers, and [`error`] turns errors into answers. What holds over
//! several decisions is proved in [`limiter_laws`] and [`api_laws`]. What the values and the
//! answers mean, in plain numbers and characters, is proved in [`text_laws`], [`value_laws`] and
//! [`route_laws`].

pub mod api_laws;
pub mod client;
pub mod domain;
pub mod dto;
pub mod error;
pub mod handlers;
pub mod limiter_laws;
pub mod rate_limit;
pub mod route_laws;
pub mod text;
pub mod text_laws;
pub mod time;
pub mod value_laws;
