//! Choice of the AWS region that a stream is read from.

use vstd::prelude::*;

use crate::strings::opt_view;

verus! {

/// The region a Kinesis client talks to.
#[derive(Debug, PartialEq, Eq)]
pub enum Region {
    /// An AWS region, under its canonical name.
    Named(String),
    /// Any other service that speaks the protocol, at `endpoint`.
    Custom { name: String, endpoint: String },
}

/// Mathematical value of a [`Region`].
pub enum RegionView {
    Named(Seq<char>),
    Custom { name: Seq<char>, endpoint: Seq<char> },
}

impl View for Region {
    type V = RegionView;

    open spec fn view(&self) -> RegionView {
        match self {
            Region::Named(name) => RegionView::Named(name@),
            Region::Custom { name, endpoint } => RegionView::Custom {
                name: name@,
                endpoint: endpoint@,
            },
        }
    }
}

/// The canonical name of the AWS region that `text` denotes, or `None` where it
/// denotes none: what parsing `text` as a `rusoto_core::Region` gives.
pub uninterp spec fn parsed_region_name(text: Seq<char>) -> Option<Seq<char>>;

/// Calls `<rusoto_core::Region as FromStr>::from_str`, and names the region it
/// gives with `rusoto_core::Region::name`.
///
/// Claims that the outcome depends on the text alone, and that a canonical
/// name denotes the region that bears it.
#[verifier::external_body]
fn parse_region(text: &str) -> (res: Option<String>)
    ensures
        (match res {
            Some(name) => parsed_region_name(text@) == Some(name@),
            None => parsed_region_name(text@) is None,
        }),
        res matches Some(name) ==> parsed_region_name(name@) == Some(name@),
{
    match text.parse::<rusoto_core::Region>() {
        Ok(region) => Some(region.name().to_string()),
        Err(_) => None,
    }
}

/// The region that the settings fix by themselves: the endpoint wins over the
/// region name, and an unknown region name counts as none.
pub open spec fn configured_region(
    parsed_region: Option<Seq<char>>,
    endpoint: Option<Seq<char>>,
) -> Option<RegionView> {
    match (endpoint, parsed_region) {
        (Some(endpoint), _) => Some(RegionView::Custom { name: "Custom"@, endpoint }),
        (None, Some(name)) => Some(RegionView::Named(name)),
        (None, None) => None,
    }
}

/// What parsing an optional region setting gives.
pub open spec fn parsed_setting(region: Option<Seq<char>>) -> Option<Seq<char>> {
    match region {
        Some(text) => parsed_region_name(text),
        None => None,
    }
}

/// Chooses the region from the endpoint setting and from the outcome of parsing
/// the region setting.
pub fn select_region(parsed_region: Option<String>, endpoint: Option<String>) -> (res: Option<
    Region,
>)
    ensures
        (match res {
            Some(region) => configured_region(opt_view(parsed_region), opt_view(endpoint)) == Some(
                region@,
            ),
            None => configured_region(opt_view(parsed_region), opt_view(endpoint)) is None,
        }),
{
    match endpoint {
        Some(endpoint) => Some(Region::Custom { name: "Custom".to_string(), endpoint }),
        None => match parsed_region {
            Some(name) => Some(Region::Named(name)),
            None => None,
        },
    }
}

/// Resolves the region and endpoint settings of a source to a region.
///
/// `None` where the settings fix no region, and the environment's default is to
/// be taken. An AWS region comes under its canonical name.
pub fn get_region(region_opt: Option<String>, endpoint_opt: Option<String>) -> (res: Option<Region>)
    ensures
        (match res {
            Some(region) => configured_region(
                parsed_setting(opt_view(region_opt)),
                opt_view(endpoint_opt),
            ) == Some(region@),
            None => configured_region(
                parsed_setting(opt_view(region_opt)),
                opt_view(endpoint_opt),
            ) is None,
        }),
        res matches Some(region) ==> (region@ matches RegionView::Named(name)
            ==> parsed_region_name(name) == Some(name)),
{
    let parsed_region = match region_opt {
        Some(text) => parse_region(text.as_str()),
        None => None,
    };
    select_region(parsed_region, endpoint_opt)
}

/// An endpoint decides the region by itself, whatever the region setting is: the
/// endpoint is kept as it is, under the name `Custom`.
pub proof fn law_endpoint_decides(
    region: Option<Seq<char>>,
    other: Option<Seq<char>>,
    endpoint: Seq<char>,
)
    ensures
        configured_region(parsed_setting(region), Some(endpoint)) == configured_region(
            parsed_setting(other),
            Some(endpoint),
        ),
        configured_region(parsed_setting(region), Some(endpoint)) matches Some(
            RegionView::Custom { name, endpoint: kept },
        ) && name == "Custom"@ && kept == endpoint,
{
}

/// Without an endpoint, a region setting that denotes an AWS region decides, and
/// gives that region; without either, nothing is decided.
pub proof fn law_region_setting_decides_without_endpoint(text: Seq<char>)
    ensures
        parsed_region_name(text) matches Some(canonical) ==> configured_region(
            parsed_setting(Some(text)),
            None,
        ) == Some(RegionView::Named(canonical)),
        parsed_region_name(text) is None ==> configured_region(
            parsed_setting(Some(text)),
            None,
        ) is None,
        configured_region(parsed_setting(None), None) is None,
{
}

/// The value of a region leaves nothing out.
pub proof fn law_region_view_is_whole(region: Region)
    ensures
        region matches Region::Named(name) ==> region@ == RegionView::Named(name@),
        region matches Region::Custom { name, endpoint } ==> region@ == (RegionView::Custom {
            name: name@,
            endpoint: endpoint@,
        }),
{
}

} // verus!
