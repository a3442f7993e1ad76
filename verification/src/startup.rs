//! What the environment asks of a start of the app.

use vstd::prelude::*;
use vstd::string::*;

use crate::utf8;

verus! {

/// What a string that may be missing holds.
pub open spec fn text_of(value: Option<String>) -> Option<Seq<char>> {
    match value {
        Some(value) => Some(value@),
        None => None,
    }
}

/// A switch with this value, if it has one, turns the preview on.
pub open spec fn turns_preview_on(switch: Option<Seq<char>>) -> bool {
    switch matches Some(value) && value != "0"@
}

/// The scenario that the switch and the scenario variable ask for.
pub open spec fn scenario_asked_for(
    switch: Option<Seq<char>>,
    scenario: Option<Seq<char>>,
) -> Option<Seq<char>> {
    if scenario is Some {
        scenario
    } else if switch == Some("1"@) {
        None
    } else {
        switch
    }
}

/// Whether to run on preview data, and which scenario of it was asked for.
#[derive(Debug, PartialEq, Eq)]
pub struct PreviewRequest {
    pub preview: bool,
    pub scenario: Option<String>,
}

/// Reads the preview switch and the scenario. The switch turns the preview on
/// unless it is "0"; where no scenario is given, the switch names it unless it is
/// "1".
pub fn preview_request(switch: Option<String>, scenario: Option<String>) -> (request:
    PreviewRequest)
    ensures
        request.preview == (text_of(switch) matches Some(value) && value != "0"@),
        request.preview == turns_preview_on(text_of(switch)),
        text_of(request.scenario) == scenario_asked_for(text_of(switch), text_of(scenario)),
        text_of(request.scenario) == (if scenario is Some {
            text_of(scenario)
        } else if text_of(switch) == Some("1"@) {
            None
        } else {
            text_of(switch)
        }),
{
    let preview: bool = match &switch {
        Some(value) => !utf8::same_text(value.as_str(), "0"),
        None => false,
    };
    let scenario = match scenario {
        Some(scenario) => Some(scenario),
        None => match switch {
            Some(value) => {
                if utf8::same_text(value.as_str(), "1") {
                    None
                } else {
                    Some(value)
                }
            },
            None => None,
        },
    };
    PreviewRequest { preview, scenario }
}

/// The preview is on for every value of the switch but "0", and off without one. A
/// scenario that is given goes before any switch and never turns the preview on.
pub proof fn law_a_switch_that_is_not_zero_turns_the_preview_on(value: Seq<char>)
    ensures
        !turns_preview_on(None),
        turns_preview_on(Some(value)) <==> !(value.len() == 1 && value[0] == '0'),
{
    reveal_strlit("0");
    if value.len() == 1 && value[0] == '0' {
        assert(value =~= "0"@);
    }
}

/// A scenario that is given is the one asked for, whatever the switch says. Without
/// one the switch names it, unless the switch is "1" or missing.
pub proof fn law_a_given_scenario_goes_before_the_switch(
    switch: Option<Seq<char>>,
    value: Seq<char>,
    scenario: Seq<char>,
)
    ensures
        scenario_asked_for(switch, Some(scenario)) == Some(scenario),
        scenario_asked_for(None, None) is None,
        value.len() == 1 && value[0] == '1' ==> scenario_asked_for(Some(value), None) is None,
        !(value.len() == 1 && value[0] == '1') ==> scenario_asked_for(Some(value), None) == Some(
            value,
        ),
{
    reveal_strlit("1");
    if value.len() == 1 && value[0] == '1' {
        assert(value =~= "1"@);
    }
}

/// A string that is there holds its text, and one that is missing holds none.
pub proof fn law_a_missing_string_holds_no_text(value: String)
    ensures
        text_of(Some(value)) == Some(value@),
        text_of(None) is None,
{
}

} // verus!
