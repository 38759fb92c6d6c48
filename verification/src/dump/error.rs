//! What can go wrong while one object is reconstructed.

use vstd::prelude::*;
use crate::dump::helper;
use crate::dump::property_info;
use crate::dump::property_info::{InfoView, PropertyInfo};

verus! {

#[derive(Debug)]
pub enum Error {
    /// The enum at this address has a variant without a name.
    BadVariant(usize),
    /// Nothing holds the constant at this address.
    ConstOuter(usize),
    Helper(helper::Error),
    PropertyInfo(property_info::Error),
    /// The property at this address takes more or fewer bytes than its
    /// classification says: the difference, and the classification.
    PropertySizeMismatch(usize, i128, PropertyInfo),
    /// The value of the constant at this address is no text.
    StringConversion(usize),
}

/// An error, the texts of a classification as characters.
pub enum ErrorView {
    BadVariant(usize),
    ConstOuter(usize),
    Helper(helper::Error),
    PropertyInfo(property_info::Error),
    PropertySizeMismatch(usize, i128, InfoView),
    StringConversion(usize),
}

impl View for Error {
    type V = ErrorView;

    open spec fn view(&self) -> ErrorView {
        match self {
            Error::BadVariant(address) => ErrorView::BadVariant(*address),
            Error::ConstOuter(address) => ErrorView::ConstOuter(*address),
            Error::Helper(error) => ErrorView::Helper(*error),
            Error::PropertyInfo(error) => ErrorView::PropertyInfo(*error),
            Error::PropertySizeMismatch(address, mismatch, info) => ErrorView::PropertySizeMismatch(
                *address,
                *mismatch,
                info@,
            ),
            Error::StringConversion(address) => ErrorView::StringConversion(*address),
        }
    }
}

/// The error of a name lookup, as a reconstruction reports it.
pub open spec fn from_helper<T>(result: Result<T, helper::Error>) -> Result<T, ErrorView> {
    match result {
        Ok(value) => Ok(value),
        Err(error) => Err(ErrorView::Helper(error)),
    }
}

/// The error of a classification, as a reconstruction reports it.
pub open spec fn from_property_info<T>(result: Result<T, property_info::Error>) -> Result<
    T,
    ErrorView,
> {
    match result {
        Ok(value) => Ok(value),
        Err(error) => Err(ErrorView::PropertyInfo(error)),
    }
}

} // verus!
