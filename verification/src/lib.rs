//! Verified core of a JVM / Spring Boot monitoring library.

pub mod text;
pub mod num;
pub mod model;
pub mod timeseries;
pub mod fmt;
pub mod clock;
pub mod anomaly;
pub mod detectors;
pub mod recommend;
pub mod rules;
pub mod targets;
pub mod prometheus;
pub mod normalize;
pub mod converter;
pub mod health;
pub mod threads;
pub mod scan;
pub mod gclog;
pub mod g1;
pub mod zgc;
pub mod shenandoah;
pub mod jolokia;
pub mod jconvert;
pub mod tabs;
pub mod profiler;
pub mod config;
pub mod auth;
pub mod logfile;
pub mod action;
pub mod gctail;
pub mod collector;
pub mod keymap;
pub mod console;
pub mod logview;
pub mod mbeans;
pub mod guards;
pub mod report;
