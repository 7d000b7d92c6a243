//! Planning core of a course-page scraper: finds the assignment pages named
//! on a listing page, the images each page embeds, and the files they are
//! saved to.

pub mod crawl;
pub mod images;
pub mod links;
pub mod model;
pub mod pattern;
pub mod plan;
pub mod text;
