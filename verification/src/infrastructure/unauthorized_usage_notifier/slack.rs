//! The direct message to someone using a resource another member has reserved.
use crate::domain::resource::ResourceUsage;
use crate::infrastructure::config::notification_format::{DateFormat, ResourceStyle, TimeStyle};
use crate::infrastructure::notifier::formatter::{
    format_resources_styled, format_time_styled, period_in_range, spec_format_resources,
    time_styled_ok,
};
use crate::text::{owned, push_str};
use vstd::prelude::*;

verus! {

/// `r` is the message about the reservation: its owner, period and resources.
pub open spec fn unauthorized_message(r: Seq<char>, reserved: ResourceUsage) -> bool {
    exists|time: Seq<char>|
        #![trigger time_styled_ok(time, reserved.time_period, None, TimeStyle::Full, DateFormat::Ymd)]
        time_styled_ok(time, reserved.time_period, None, TimeStyle::Full, DateFormat::Ymd) && r
            == "🚫 他の人が予約中のリソースを使用しています\n\nあなたが使用中のリソースには、現在以下の予約が入っています。\n\n👤 予約者\n"@
            + reserved@.owner_email + "\n\n📅 予約期間\n"@ + time + "\n\n💻 予約リソース\n"@
            + spec_format_resources(reserved@.resources, ResourceStyle::Full)
            + "\n\n心当たりがある場合は、処理を停止するか予約者と調整してください。"@
}

/// The message telling someone the resource they use is reserved: the reservation's owner,
/// period and resources, and what to do.
pub fn build_unauthorized_message(reserved_usage: &ResourceUsage) -> (r: String)
    requires
        period_in_range(reserved_usage.time_period),
    ensures
        unauthorized_message(r@, *reserved_usage),
{
    let resources = format_resources_styled(reserved_usage.resources(), ResourceStyle::Full);
    let time = format_time_styled(
        &reserved_usage.time_period,
        None,
        TimeStyle::Full,
        DateFormat::Ymd,
    );
    let mut r = owned(
        "🚫 他の人が予約中のリソースを使用しています\n\nあなたが使用中のリソースには、現在以下の予約が入っています。\n\n👤 予約者\n",
    );
    push_str(&mut r, reserved_usage.owner_email());
    push_str(&mut r, "\n\n📅 予約期間\n");
    push_str(&mut r, time.as_str());
    push_str(&mut r, "\n\n💻 予約リソース\n");
    push_str(&mut r, resources.as_str());
    push_str(&mut r, "\n\n心当たりがある場合は、処理を停止するか予約者と調整してください。");
    assert(time_styled_ok(time@, reserved_usage.time_period, None, TimeStyle::Full, DateFormat::Ymd));
    r
}

} // verus!
