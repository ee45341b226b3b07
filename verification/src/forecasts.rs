//! The forecast records the engine's results are stored under, and the plain
//! view models a presentation layer renders. Persistence itself (lookup,
//! update, deletion by name or id) belongs to an external collaborator; the
//! engine only requires that a weight set and its span can be carried in a
//! forecast's allocation data.

use vstd::prelude::*;

use crate::ranges::Range;

verus! {

/// The kind of a forecast. Only date-based forecasts exist today.
#[derive(Clone, Copy, Debug, PartialEq, Eq, Structural)]
pub enum ForecastType {
    Date,
}

impl ForecastType {
    /// The stored name of the forecast type.
    pub fn as_text(&self) -> (r: &'static str)
        ensures
            r@ == "Date"@,
    {
        match self {
            ForecastType::Date => "Date",
        }
    }

    /// The forecast type stored under `s`; `None` for an unknown name.
    pub fn from_text(s: &str) -> (r: Option<ForecastType>)
        ensures
            r is Some <==> s@ == "Date"@,
            r matches Some(f) ==> f == ForecastType::Date,
    {
        let len = s.unicode_len();
        let matched = len == 4 && s.get_char(0) == 'D' && s.get_char(1) == 'a' && s.get_char(2)
            == 't' && s.get_char(3) == 'e';
        proof {
            reveal_strlit("Date");
            if matched {
                assert(s@ =~= "Date"@);
            }
        }
        if matched {
            Some(ForecastType::Date)
        } else {
            None
        }
    }
}

/// A forecast as a caller first names it, before it has an id or data.
pub struct NewForecast {
    pub name: String,
    pub forecast_type: ForecastType,
}

/// The allocation state saved with a forecast: the span's two dates as
/// calendar text, and the generated sub-ranges.
#[derive(Clone, Debug)]
pub struct RangeForecast {
    pub start_date: Option<String>,
    pub end_date: Option<String>,
    pub ranges: Option<Vec<Range>>,
}

/// A forecast as the persistence collaborator returns it.
#[derive(Debug)]
pub struct SavedForecast {
    pub id: i64,
    pub name: String,
    pub forecast_type: ForecastType,
    pub data: Option<RangeForecast>,
}

impl SavedForecast {
    /// A freshly created forecast: the new forecast's name and type under
    /// the id the collaborator assigned, with no allocation data yet.
    pub fn from(new_forecast: NewForecast, id: i64) -> (r: SavedForecast)
        ensures
            r.id == id,
            r.name@ == new_forecast.name@,
            r.forecast_type == new_forecast.forecast_type,
            r.data is None,
    {
        SavedForecast {
            id,
            name: new_forecast.name.clone(),
            forecast_type: new_forecast.forecast_type,
            data: None,
        }
    }
}

/// View model for a forecast page that has no allocation data yet.
pub struct ForecastTemplate {
    pub forecast_name: String,
    pub forecast_id: String,
}

/// View model for the page inviting the user to create a forecast.
pub struct CreateForecastTemplate;

/// The path parameter addressing one forecast by id.
#[derive(Clone, Copy, Debug, PartialEq, Eq, Structural)]
pub struct EditPath {
    pub id: i64,
}

} // verus!
