use vstd::prelude::*;

verus! {

/// The log filter the service runs with: its own messages and those of
/// `tower_http` from level `INFO` up.
pub open spec fn log_filter_text(app_name: Seq<char>) -> Seq<char> {
    app_name + "=INFO,tower_http=INFO"@
}

/// The value of `RUST_LOG` for the service called `app_name`.
pub fn log_filter(app_name: &str) -> (filter: String)
    ensures
        filter@ == log_filter_text(app_name@),
{
    let mut filter = String::from_str(app_name);
    filter.append("=INFO,tower_http=INFO");
    filter
}

} // verus!
