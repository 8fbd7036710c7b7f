//! The run configuration: directory, target-prefix filters, translation
//! amount and the sideways flag, assembled from externally acquired inputs.

use crate::errors::PathError;
use crate::selector::{select_names, selected_names};
use crate::text::{split_commas, split_commas_exec, str_eq};
use vstd::prelude::*;

verus! {

/// The validated run configuration: where to look, which filename prefixes
/// to target, how far to translate (fixed-point nanounits), and whether the
/// heading is reinterpreted sideways.
#[derive(Debug, PartialEq)]
pub struct Config {
    pub folder_filepath: String,
    pub target_paths: Vec<String>,
    pub amount: i64,
    pub sideways: bool,
}

impl Config {
    /// Assembles a configuration from the externally acquired inputs: the
    /// directory path, the raw comma-separated target-prefix argument, the
    /// already parsed amount, and the raw sideways argument. The target
    /// argument is split on commas; the sideways argument means true only
    /// when it is exactly "true", anything else (or no argument) means
    /// false. Each absent required argument is its own error.
    pub fn build(
        folder_filepath: String,
        target_arg: Option<String>,
        amount: Option<i64>,
        sideways_arg: Option<String>,
    ) -> (r: Result<Config, PathError>)
        ensures
            match r {
                Ok(c) => {
                    &&& target_arg is Some
                    &&& amount is Some
                    &&& c.folder_filepath == folder_filepath
                    &&& c.target_paths.deep_view() == split_commas(target_arg->0@)
                    &&& c.amount == amount->0
                    &&& c.sideways == (sideways_arg is Some && sideways_arg->0@ == "true"@)
                },
                Err(e) => {
                    ||| (e == PathError::MissingTargets && target_arg is None)
                    ||| (e == PathError::MissingAmount && target_arg is Some && amount is None)
                },
            },
    {
        let target = match target_arg {
            Some(t) => t,
            None => {
                return Err(PathError::MissingTargets);
            },
        };
        let amount = match amount {
            Some(a) => a,
            None => {
                return Err(PathError::MissingAmount);
            },
        };
        let sideways = match &sideways_arg {
            Some(s) => str_eq(s.as_str(), "true"),
            None => false,
        };
        let target_paths = split_commas_exec(target.as_str());
        Ok(Config { folder_filepath, target_paths, amount, sideways })
    }

    /// Selects from the listed names those that start with one of the
    /// configured target prefixes, keeping the listing order; fails with
    /// `NoMatchingFiles` when none does.
    pub fn select_target_names(&self, names: &Vec<String>) -> (r: Result<Vec<String>, PathError>)
        ensures
            match r {
                Ok(sel) => sel.deep_view() == selected_names(
                    names.deep_view(),
                    self.target_paths.deep_view(),
                ) && sel@.len() > 0,
                Err(e) => e == PathError::NoMatchingFiles && selected_names(
                    names.deep_view(),
                    self.target_paths.deep_view(),
                ) == Seq::<Seq<char>>::empty(),
            },
    {
        select_names(names, &self.target_paths)
    }
}

} // verus!
