use pingus_dispatch::config::Config;
use pingus_dispatch::dispatcher::{conclude, Completion, DispatchError, Dispatcher, Event, Outcome};
use pingus_dispatch::gating::{any_role_grants, gate, Caller, Gating, GatingReason};
use pingus_dispatch::ratelimit::{Acquire, Bucket, BucketConfig, LimitScope};
use pingus_dispatch::registry::{CommandDescriptor, Group, Registry, RegistryError};
use pingus_dispatch::tokenizer::{tokenize, TokenizerConfig, Tokens};

const ADMINISTRATOR: u64 = 8;

fn space_config() -> TokenizerConfig {
    TokenizerConfig::new("c!", Some("<@42>"), vec![" "], 2)
}

fn matched(t: Tokens) -> (Vec<String>, Vec<usize>, String) {
    match t {
        Tokens::Matched { path, starts, tail } => (path, starts, tail),
        Tokens::NoMatch => panic!("expected a match"),
    }
}

fn bot_registry() -> Registry {
    let mut general = Group::new("General", Gating::open_to_all());
    for name in ["about", "am_i_admin", "ping", "some_long_command", "react"] {
        general.add_command(CommandDescriptor::new(name, ""));
    }
    let mut admin_rules = Gating::open_to_all();
    admin_rules.guild_only = true;
    admin_rules.required_permissions = ADMINISTRATOR;
    let mut admins = Group::new("Admins", admin_rules);
    let mut modc = CommandDescriptor::new("mod", "");
    let mut sub = CommandDescriptor::new("sub", "This is `mod`'s sub-command.");
    sub.add_alias("sub-command");
    sub.add_alias("secret");
    assert!(modc.add_subcommand(sub).is_ok());
    assert!(modc.add_subcommand(CommandDescriptor::new("kick", "Kicks a member")).is_ok());
    assert!(modc.add_subcommand(CommandDescriptor::new("info", "idk")).is_ok());
    admins.add_command(CommandDescriptor::new("slow_mode", ""));
    admins.add_command(modc);
    admins.add_command(CommandDescriptor::new("about_role", ""));
    let mut reg = Registry::new();
    assert!(reg.register(general).is_ok());
    assert!(reg.register(admins).is_ok());
    reg
}

fn event(text: &str, guild: Option<u64>, permissions: u64) -> Event {
    Event {
        author_id: 7,
        channel_id: 100,
        text: text.to_string(),
        is_bot_author: false,
        caller: Caller { guild_id: guild, permissions, roles: vec![] },
    }
}

fn complicated() -> BucketConfig {
    BucketConfig { limit: 2, time_span: 30, delay: Some(5), await_limit: 1, scope: LimitScope::Channel }
}

#[test]
fn unprefixed_text_is_no_match() {
    let cfg = space_config();
    for text in ["hello", "", "c", "C!ping", " c!ping", "<@4>", "x c!mod"] {
        assert!(matches!(tokenize(&cfg, text), Tokens::NoMatch), "{}", text);
    }
}

#[test]
fn path_and_tail_split_at_depth() {
    let (path, starts, tail) = matched(tokenize(&space_config(), "c!mod sub extra args"));
    assert_eq!(path, vec!["mod".to_string(), "sub".to_string()]);
    assert_eq!(starts, vec![2, 6]);
    assert_eq!(tail, "extra args");
}

#[test]
fn bare_prefix_is_no_match() {
    assert!(matches!(tokenize(&space_config(), "c!"), Tokens::NoMatch));
}

#[test]
fn mention_trigger_skips_spaces() {
    let (path, _, tail) = matched(tokenize(&space_config(), "<@42>   ping now"));
    assert_eq!(path, vec!["ping".to_string(), "now".to_string()]);
    assert_eq!(tail, "");
}

#[test]
fn earliest_delimiter_wins_ties_by_list_order() {
    let cfg = TokenizerConfig::new("c!", None, vec![", ", ","], 3);
    let (path, _, tail) = matched(tokenize(&cfg, "c!a, b,c,d"));
    assert_eq!(path, vec!["a".to_string(), "b".to_string(), "c".to_string()]);
    assert_eq!(tail, "d");
    let cfg = TokenizerConfig::new("c!", None, vec![",", ", "], 3);
    let (path, _, tail) = matched(tokenize(&cfg, "c!a, b,c"));
    assert_eq!(path, vec!["a".to_string(), " b".to_string(), "c".to_string()]);
    assert_eq!(tail, "");
}

#[test]
fn duplicate_alias_is_refused() {
    let mut reg = Registry::new();
    let mut g1 = Group::new("one", Gating::open_to_all());
    let mut a = CommandDescriptor::new("a", "");
    a.add_alias("x");
    g1.add_command(a);
    assert!(reg.register(g1).is_ok());
    let mut g2 = Group::new("two", Gating::open_to_all());
    let mut b = CommandDescriptor::new("b", "");
    b.add_alias("x");
    g2.add_command(b);
    assert_eq!(reg.register(g2), Err(RegistryError::DuplicateName));
    assert_eq!(reg.groups.len(), 1);
}

#[test]
fn duplicate_within_one_group_is_refused() {
    let mut reg = Registry::new();
    let mut g = Group::new("one", Gating::open_to_all());
    g.add_command(CommandDescriptor::new("a", ""));
    let mut b = CommandDescriptor::new("b", "");
    b.add_alias("a");
    g.add_command(b);
    assert_eq!(reg.register(g), Err(RegistryError::DuplicateName));
}

#[test]
fn duplicate_subcommand_is_refused() {
    let mut m = CommandDescriptor::new("mod", "");
    assert!(m.add_subcommand(CommandDescriptor::new("kick", "")).is_ok());
    let mut k = CommandDescriptor::new("boot", "");
    k.add_alias("kick");
    assert_eq!(m.add_subcommand(k), Err(RegistryError::DuplicateName));
    assert_eq!(m.subcommands.len(), 1);
}

#[test]
fn resolves_subcommand() {
    let reg = bot_registry();
    let path = vec!["mod".to_string(), "kick".to_string()];
    let res = reg.resolve(&path).unwrap();
    assert_eq!(res.command.name, "kick");
    assert_eq!(res.group.name, "Admins");
    assert_eq!(res.consumed, 2);
    assert_eq!(res.qualified, "mod kick");
}

#[test]
fn resolves_alias_and_stops_at_unknown_segment() {
    let reg = bot_registry();
    let res = reg.resolve(&vec!["mod".to_string(), "secret".to_string()]).unwrap();
    assert_eq!(res.command.name, "sub");
    assert_eq!(res.qualified, "mod sub");
    let res = reg.resolve(&vec!["mod".to_string(), "nothing".to_string()]).unwrap();
    assert_eq!(res.command.name, "mod");
    assert_eq!(res.consumed, 1);
    assert!(reg.resolve(&vec!["nope".to_string()]).is_none());
}

#[test]
fn bucket_rejects_third_call_and_resets_after_span() {
    let cfg = BucketConfig { limit: 2, time_span: 30, delay: None, await_limit: 0, scope: LimitScope::Channel };
    let mut b = Bucket::new("b", cfg);
    assert_eq!(b.try_acquire(1, 100), Acquire::Allowed);
    assert_eq!(b.try_acquire(1, 110), Acquire::Allowed);
    assert_eq!(b.try_acquire(1, 120), Acquire::Rejected { retry_after: 10, first_try: true });
    assert_eq!(b.try_acquire(1, 125), Acquire::Rejected { retry_after: 5, first_try: false });
    assert_eq!(b.try_acquire(2, 125), Acquire::Allowed);
    assert_eq!(b.try_acquire(1, 130), Acquire::Allowed);
    assert_eq!(b.states.get(&1).unwrap().count, 1);
    assert_eq!(b.states.get(&1).unwrap().window_start, 130);
}

#[test]
fn bucket_delays_up_to_await_limit() {
    let mut b = Bucket::new("complicated", complicated());
    assert_eq!(b.try_acquire(5, 0), Acquire::Allowed);
    assert_eq!(b.try_acquire(5, 10), Acquire::Allowed);
    assert_eq!(b.try_acquire(5, 12), Acquire::Delayed { wait: 18, notify: true });
    assert_eq!(b.try_acquire(5, 13), Acquire::Rejected { retry_after: 17, first_try: true });
    b.finish_delay(5);
    assert_eq!(b.states.get(&5).unwrap().delayed, 0);
    assert_eq!(b.try_acquire(5, 14), Acquire::Delayed { wait: 16, notify: false });
}

#[test]
fn counter_counts_every_dispatch_of_a_command() {
    let mut d = Dispatcher::new(space_config(), bot_registry(), vec![]);
    for k in 0..5 {
        match d.dispatch(&event("c!ping", None, 0), k) {
            Outcome::Run { command, args } => {
                assert_eq!(command, "ping");
                assert_eq!(args, "");
                let result = if k % 2 == 0 { Ok(()) } else { Err("failed".to_string()) };
                let _ = conclude(result);
            },
            _ => panic!("ping should run"),
        }
    }
    assert_eq!(d.invocations("ping"), 5);
    assert_eq!(d.invocations("about"), 0);
}

#[test]
fn ping_runs_and_completes() {
    let mut d = Dispatcher::new(space_config(), bot_registry(), vec![]);
    match d.dispatch(&event("c!ping", Some(1), 0), 0) {
        Outcome::Run { command, .. } => {
            assert_eq!(command, "ping");
            assert!(matches!(conclude(Ok(())), Completion::Completed));
        },
        _ => panic!("ping should run"),
    }
}

#[test]
fn non_admin_kick_is_denied_and_not_counted() {
    let mut d = Dispatcher::new(space_config(), bot_registry(), vec![]);
    match d.dispatch(&event("c!mod kick @x", Some(1), 0), 0) {
        Outcome::Denied { command, error } => {
            assert_eq!(command, "mod kick");
            assert_eq!(error, DispatchError::Gating(GatingReason::MissingPermission));
        },
        _ => panic!("kick should be denied"),
    }
    assert_eq!(d.invocations("mod kick"), 0);
    match d.dispatch(&event("c!mod kick @x", Some(1), ADMINISTRATOR), 1) {
        Outcome::Run { command, args } => {
            assert_eq!(command, "mod kick");
            assert_eq!(args, "@x");
        },
        _ => panic!("an admin may kick"),
    }
    assert_eq!(d.invocations("mod kick"), 1);
}

#[test]
fn unmatched_segments_go_back_into_the_arguments() {
    let mut d = Dispatcher::new(space_config(), bot_registry(), vec![]);
    match d.dispatch(&event("c!some_long_command hello big world", None, 0), 0) {
        Outcome::Run { command, args } => {
            assert_eq!(command, "some_long_command");
            assert_eq!(args, "hello big world");
        },
        _ => panic!("should run"),
    }
}

#[test]
fn normal_unknown_and_bot_messages() {
    let mut d = Dispatcher::new(space_config(), bot_registry(), vec![]);
    assert!(matches!(d.dispatch(&event("hi all", None, 0), 0), Outcome::NormalMessage));
    match d.dispatch(&event("c!dance now", None, 0), 0) {
        Outcome::Unknown { name } => assert_eq!(name, "dance"),
        _ => panic!("should be unknown"),
    }
    let mut bot = event("c!ping", None, 0);
    bot.is_bot_author = true;
    assert!(matches!(d.dispatch(&bot, 0), Outcome::Ignored));
    assert_eq!(d.invocations("ping"), 0);
}

#[test]
fn guild_only_command_outside_guild() {
    let mut d = Dispatcher::new(space_config(), bot_registry(), vec![]);
    match d.dispatch(&event("c!slow_mode 5", None, ADMINISTRATOR), 0) {
        Outcome::Denied { error, .. } => assert_eq!(error, DispatchError::Gating(GatingReason::NotInGuild)),
        _ => panic!("should be denied"),
    }
}

#[test]
fn role_gating() {
    let mut rules = Gating::open_to_all();
    rules.allowed_roles = vec!["mods".to_string(), "owners".to_string()];
    let open = Gating::open_to_all();
    let without = Caller { guild_id: Some(1), permissions: 0, roles: vec!["guests".to_string()] };
    let with = Caller { guild_id: Some(1), permissions: 0, roles: vec!["guests".to_string(), "owners".to_string()] };
    assert_eq!(gate(&open, &rules, &without), Some(GatingReason::MissingRole));
    assert_eq!(gate(&rules, &open, &with), None);
}

#[test]
fn rate_limited_command_through_dispatch() {
    let mut reg = Registry::new();
    let mut g = Group::new("g", Gating::open_to_all());
    let mut c = CommandDescriptor::new("slow", "");
    c.gating.bucket = Some("complicated".to_string());
    g.add_command(c);
    assert!(reg.register(g).is_ok());
    let mut d = Dispatcher::new(space_config(), reg, vec![Bucket::new("complicated", complicated())]);
    assert!(matches!(d.dispatch(&event("c!slow", None, 0), 0), Outcome::Run { .. }));
    assert!(matches!(d.dispatch(&event("c!slow", None, 0), 1), Outcome::Run { .. }));
    match d.dispatch(&event("c!slow", None, 0), 10) {
        Outcome::Delayed { bucket, key, wait, notify, .. } => {
            assert_eq!((bucket, key, wait, notify), (0, 100, 20, true));
            d.finish_delay(bucket, key);
        },
        _ => panic!("should be delayed"),
    }
    assert_eq!(d.invocations("slow"), 3);
    assert!(matches!(d.dispatch(&event("c!slow", None, 0), 11), Outcome::Delayed { notify: false, .. }));
    match d.dispatch(&event("c!slow", None, 0), 12) {
        Outcome::Denied { error, .. } => {
            assert_eq!(error, DispatchError::RateLimited { retry_after: 18, first_try: true })
        },
        _ => panic!("should be rejected"),
    }
    assert_eq!(d.invocations("slow"), 4);
}

#[test]
fn handler_failure_is_reported() {
    match conclude(Err("boom".to_string())) {
        Completion::Failed { cause } => assert_eq!(cause, "boom"),
        Completion::Completed => panic!("should fail"),
    }
}

#[test]
fn config_holds_token() {
    assert_eq!(Config::new("SECRET-REDACTED").token, "SECRET-REDACTED");
}

#[test]
fn prefix_wins_over_mention() {
    let cfg = TokenizerConfig::new("<@", Some("<@42>"), vec![" "], 1);
    let (path, _, tail) = matched(tokenize(&cfg, "<@42> ping"));
    assert_eq!(path, vec!["42>".to_string()]);
    assert_eq!(tail, "ping");
}

#[test]
fn admin_role_detection() {
    assert!(!any_role_grants(&vec![], ADMINISTRATOR));
    assert!(!any_role_grants(&vec![1, 2, 4, 16], ADMINISTRATOR));
    assert!(any_role_grants(&vec![1, 8 | 2], ADMINISTRATOR));
}

#[test]
fn missing_permission_in_command_rules() {
    let mut rules = Gating::open_to_all();
    rules.required_permissions = 0b110;
    let open = Gating::open_to_all();
    let caller = Caller { guild_id: None, permissions: 0b010, roles: vec![] };
    assert_eq!(gate(&open, &rules, &caller), Some(GatingReason::MissingPermission));
    let caller = Caller { guild_id: None, permissions: 0b111, roles: vec![] };
    assert_eq!(gate(&open, &rules, &caller), None);
}
