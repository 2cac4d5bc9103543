pub mod attend;
pub mod captcha;
pub mod control;
pub mod login_test;
pub mod notes;
pub mod sync;
pub mod updater;
pub mod ocr;
pub mod sites;
pub mod cookiecloud;
pub mod percent;
pub mod cdp;
pub mod host;
pub mod chance;
pub mod scheduler;
pub mod keepalive;
pub mod cron;
pub mod gotify;
pub mod store;
pub mod calendar;
pub mod signin;
pub mod signin_flow;
pub mod list;
pub mod traffic;
pub mod auth;
pub mod bytes;
pub mod json;
pub mod login;
pub mod number;
pub mod order;
pub mod text;
