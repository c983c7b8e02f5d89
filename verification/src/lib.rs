//! Finds files whose names are likely duplicates of one another, by
//! grapheme-aware edit distance rather than exact comparison.
//!
//! The caller walks a directory tree and hands in one [`scan::ScanEntry`]
//! per regular file; [`scan::get_paths`] turns them into the list of
//! records to compare, under an optional regular-expression name filter,
//! and [`group::find_duplicates`] reports, for every file that has at
//! least one later file whose name is within a distance threshold, the
//! group of those later files.
//!
//! The distance, [`distance::edit_distance`], is the Levenshtein
//! distance over grapheme clusters, so a multi-code-unit character
//! counts as one editable unit; [`metric`] proves it is a metric:
//! identity, symmetry and the triangle inequality.

pub mod distance;
pub mod group;
pub mod metric;
pub mod scan;
