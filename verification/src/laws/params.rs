//! Laws of the server's parameters.

use crate::relay_server::params::{EnvParams, Params, Scaled};
use crate::relay_server::{RelayServer, ServerView};
use crate::text::{parse_number, NumberError};
use vstd::prelude::*;

verus! {

/// Whether a parameter is what its variable says, and where that is not set what it was before.
pub open spec fn follows(after: u64, variable: Option<u64>, before: u64) -> bool {
    &&& variable is None ==> after == before
    &&& variable is Some ==> Some(after) == variable
}

/// Each scaled parameter follows its own variable and no other one.
pub proof fn lemma_each_variable_sets_its_parameter(env: &EnvParams)
    ensures
        forall|params: &mut Params, done: ()| #[trigger]
            call_ensures(Params::check_params, (params, env), done) ==> {
                &&& follows(
                    final(params).downgrade_threshold_100,
                    env.downgrade_threshold_100,
                    params.downgrade_threshold_100,
                )
                &&& follows(final(params).limit_speed, env.limit_speed, params.limit_speed)
                &&& follows(
                    final(params).total_bandwidth,
                    env.total_bandwidth,
                    params.total_bandwidth,
                )
                &&& follows(
                    final(params).single_bandwidth,
                    env.single_bandwidth,
                    params.single_bandwidth,
                )
            },
        forall|server: &mut RelayServer, done: ()| #[trigger]
            call_ensures(RelayServer::check_params, (server, env), done) ==> {
                let (before, after) = (server@.params, final(server)@.params);
                &&& follows(
                    after.downgrade_threshold_100,
                    env.downgrade_threshold_100,
                    before.downgrade_threshold_100,
                )
                &&& follows(after.limit_speed, env.limit_speed, before.limit_speed)
                &&& follows(after.total_bandwidth, env.total_bandwidth, before.total_bandwidth)
                &&& follows(after.single_bandwidth, env.single_bandwidth, before.single_bandwidth)
                &&& final(server)@ == (ServerView { params: after, ..server@ })
            },
{
}

/// The start check is the number of seconds that its variable holds, in milliseconds. It stays as
/// it was where the variable is not set, is no number or is zero.
pub proof fn lemma_start_check_follows_its_variable(
    env: &EnvParams,
    text: &str,
    read: Result<u64, NumberError>,
)
    requires
        env.downgrade_start_check matches Some(variable) ==> variable@ == text@,
        call_ensures(parse_number, (text, u64::MAX), read),
    ensures
        forall|params: &mut Params, done: ()| #[trigger]
            call_ensures(Params::check_params, (params, env), done) ==> {
                let (before, after) = (
                    params.downgrade_start_check,
                    final(params).downgrade_start_check,
                );
                &&& env.downgrade_start_check is None ==> after == before
                &&& env.downgrade_start_check is Some ==> match read {
                    Ok(seconds) => {
                        &&& seconds == 0 ==> after == before
                        &&& seconds > 0 && seconds * 1000 <= u64::MAX ==> after == seconds * 1000
                    },
                    Err(_) => after == before,
                }
            },
        forall|server: &mut RelayServer, done: ()| #[trigger]
            call_ensures(RelayServer::check_params, (server, env), done) ==> {
                let (before, after) = (
                    server@.params.downgrade_start_check,
                    final(server)@.params.downgrade_start_check,
                );
                &&& env.downgrade_start_check is None ==> after == before
                &&& env.downgrade_start_check is Some ==> match read {
                    Ok(seconds) => {
                        &&& seconds == 0 ==> after == before
                        &&& seconds > 0 && seconds * 1000 <= u64::MAX ==> after == seconds * 1000
                    },
                    Err(_) => after == before,
                }
            },
{
}

/// The variables are in range unless the start check is a number of seconds that cannot be held
/// in milliseconds, and the parameters can be taken from them just then.
pub proof fn lemma_variables_in_range(
    env: &EnvParams,
    text: &str,
    read: Result<u64, NumberError>,
    yes: bool,
)
    requires
        env.downgrade_start_check matches Some(variable) ==> variable@ == text@,
        call_ensures(parse_number, (text, u64::MAX), read),
        call_ensures(EnvParams::in_range, (env,), yes),
    ensures
        yes == !(env.downgrade_start_check is Some && (read matches Ok(seconds) && seconds * 1000
            > u64::MAX)),
        yes ==> forall|params: &mut Params| #[trigger]
            call_requires(Params::check_params, (params, env)),
        yes ==> forall|server: &mut RelayServer| #[trigger]
            call_requires(RelayServer::check_params, (server, env)),
{
}

/// Setting a scaled parameter sets that one to the value and leaves the others as they are.
pub proof fn lemma_one_parameter_is_set(which: Scaled, value: u64)
    ensures
        forall|params: &mut Params, done: ()| #[trigger]
            call_ensures(Params::set, (params, which, value), done) ==> {
                let after = *final(params);
                &&& after.downgrade_start_check == params.downgrade_start_check
                &&& after.downgrade_threshold_100 == (if which == Scaled::DowngradeThreshold {
                    value
                } else {
                    params.downgrade_threshold_100
                })
                &&& after.limit_speed == (if which == Scaled::LimitSpeed {
                    value
                } else {
                    params.limit_speed
                })
                &&& after.total_bandwidth == (if which == Scaled::TotalBandwidth {
                    value
                } else {
                    params.total_bandwidth
                })
                &&& after.single_bandwidth == (if which == Scaled::SingleBandwidth {
                    value
                } else {
                    params.single_bandwidth
                })
            },
{
}

/// The same of the server, for a text that stood for a number above zero; else nothing changes.
/// Only the bandwidth of all sessions together is handed on as a limit.
pub proof fn lemma_one_parameter_of_the_server_is_set(which: Scaled, value: Option<u64>)
    ensures
        forall|server: &mut RelayServer, limit: Option<u64>| #[trigger]
            call_ensures(RelayServer::set_scaled, (server, which, value), limit) ==> {
                let (before, after) = (server@.params, final(server)@.params);
                let set = |name: Scaled|
                    if which == name {
                        value
                    } else {
                        None
                    };
                &&& after.downgrade_start_check == before.downgrade_start_check
                &&& follows(
                    after.downgrade_threshold_100,
                    set(Scaled::DowngradeThreshold),
                    before.downgrade_threshold_100,
                )
                &&& follows(after.limit_speed, set(Scaled::LimitSpeed), before.limit_speed)
                &&& follows(
                    after.total_bandwidth,
                    set(Scaled::TotalBandwidth),
                    before.total_bandwidth,
                )
                &&& follows(
                    after.single_bandwidth,
                    set(Scaled::SingleBandwidth),
                    before.single_bandwidth,
                )
                &&& final(server)@ == (ServerView { params: after, ..server@ })
                &&& limit == set(Scaled::TotalBandwidth)
            },
{
}

/// Reading a scaled parameter gives that one.
pub proof fn lemma_one_parameter_is_read(params: &Params, which: Scaled, value: u64)
    requires
        call_ensures(Params::get, (params, which), value),
    ensures
        which == Scaled::DowngradeThreshold ==> value == params.downgrade_threshold_100,
        which == Scaled::LimitSpeed ==> value == params.limit_speed,
        which == Scaled::TotalBandwidth ==> value == params.total_bandwidth,
        which == Scaled::SingleBandwidth ==> value == params.single_bandwidth,
{
}

/// The parameters that a server shows are those that it goes by.
pub proof fn lemma_parameters_are_shown(server: &RelayServer, params: Params)
    requires
        call_ensures(RelayServer::params, (server,), params),
    ensures
        params == server@.params,
{
}

/// A server begins with 66 hundredths of 16 Mb/s as the threshold of a session, half an hour before
/// it is looked at, 4 Mb/s for a session that is slowed down and 1 Gb/s for all, and with nobody
/// known to it.
pub proof fn lemma_server_begins(server: RelayServer, params: Params)
    requires
        call_ensures(RelayServer::new, (), server),
        call_ensures(RelayServer::params, (&server,), params),
    ensures
        params.downgrade_threshold_100 == 66,
        params.downgrade_start_check == 30 * 60 * 1000,
        params.limit_speed == 4 * 1024 * 1024,
        params.total_bandwidth == 1024 * 1024 * 1024,
        params.single_bandwidth == 16 * 1024 * 1024,
        server@.peers.dom().is_empty() && server@.usage.dom().is_empty(),
        server@.blacklist.is_empty() && server@.blocklist.is_empty(),
        server@.next_insert_id == 0,
{
}

} // verus!
