use hyprswitch::action::{confidence, Action, ActionMon, ActionMonitor, Config, ConfigAction, GetMonString};
use hyprswitch::alias::{parse_aliases, Alias, AliasSpecifier, ConfigAliasError};
use hyprswitch::monitor::{Monitor, MonList};
use hyprswitch::resolve::{determine_config, resolve, select_profile, transpose_config, ResolveError};

fn mon(id: i32, name: &str, disabled: bool) -> Monitor {
    Monitor {
        id,
        name: name.to_string(),
        description: format!("{} panel", name),
        make: "Acme".to_string(),
        model: format!("M-{}", id),
        serial: format!("SN{}", id),
        disabled,
    }
}

fn profile(mons: &str, cmds: &[&str]) -> ConfigAction {
    ConfigAction { mons: mons.to_string(), cmds: cmds.iter().map(|c| c.to_string()).collect() }
}

fn names(v: &[Monitor]) -> Vec<String> {
    v.iter().map(|m| m.name.clone()).collect()
}

#[test]
fn compile_keeps_every_token_in_order() {
    let ms = vec![mon(1, "DP-1", false), mon(2, "HDMI-1", false)];
    let ca = profile("DP-1,DP-2,&HDMI-1,&HDMI-2,DP-3", &[]);
    let a = Action::from_configaction(&ca, &[], &ms);
    assert_eq!(names(&a.mons.found.required), vec!["DP-1"]);
    assert_eq!(a.mons.not_found.required, vec!["DP-2", "DP-3"]);
    assert_eq!(names(&a.mons.found.optional), vec!["HDMI-1"]);
    assert_eq!(a.mons.not_found.optional, vec!["HDMI-2"]);
    assert_eq!(a.mons.found.required.len() + a.mons.not_found.required.len(), 3);
    assert_eq!(a.mons.found.optional.len() + a.mons.not_found.optional.len(), 2);
}

#[test]
fn compile_trims_tokens_and_strips_marker() {
    let ms = vec![mon(1, "DP-1", false), mon(2, "HDMI-1", false)];
    let ca = profile(" DP-1 , &HDMI-1 ", &[]);
    let a = Action::from_configaction(&ca, &[], &ms);
    assert_eq!(names(&a.mons.found.required), vec!["DP-1"]);
    assert_eq!(names(&a.mons.found.optional), vec!["HDMI-1"]);
    assert!(a.mons.not_found.required.is_empty());
    assert!(a.mons.not_found.optional.is_empty());
}

#[test]
fn token_classification() {
    let t = ActionMonitor::from_token("  &HDMI-1 ");
    assert!(t.optional);
    assert_eq!(t.name, "HDMI-1");
    let t = ActionMonitor::from_token("DP-1");
    assert!(!t.optional);
    assert_eq!(t.name, "DP-1");
    let t = ActionMonitor::from_token("");
    assert!(!t.optional);
    assert_eq!(t.name, "");
}

#[test]
fn confidence_formula() {
    // all required matched, optional count added
    assert_eq!(confidence(2, 0, 3), 5);
    // a deficit clamps to zero and earns no optional credit
    assert_eq!(confidence(1, 2, 4), 0);
    // a partial match keeps its surplus only
    assert_eq!(confidence(3, 1, 2), 2);
    // no required tokens counts as fully satisfied
    assert_eq!(confidence(0, 0, 1), 1);
    assert_eq!(confidence(0, 0, 0), 0);
}

#[test]
fn confidence_is_deterministic() {
    let ms = vec![mon(1, "DP-1", false), mon(2, "HDMI-1", false)];
    let ca = profile("DP-1,&HDMI-1,DP-9", &[]);
    let a = Action::from_configaction(&ca, &[], &ms);
    let b = Action::from_configaction(&ca, &[], &ms);
    assert_eq!(a.confidence, b.confidence);
    let mut c = Action::from_configaction(&ca, &[], &ms);
    c.set_confidence();
    c.set_confidence();
    assert_eq!(c.confidence, a.confidence);
    assert_eq!(a.confidence, 0);
}

#[test]
fn selector_prefers_first_of_equal_confidence() {
    let ms = vec![mon(1, "DP-1", false), mon(2, "HDMI-1", false)];
    let a = Action::from_configaction(&profile("DP-1,HDMI-1", &["a"]), &[], &ms);
    let b = Action::from_configaction(&profile("HDMI-1,DP-1", &["b"]), &[], &ms);
    assert_eq!(a.confidence, 2);
    assert_eq!(b.confidence, 2);
    let actions = vec![a, b];
    assert_eq!(select_profile(&actions).ok(), Some(0));
    let r = determine_config(actions).ok().unwrap();
    assert_eq!(r.index, 0);
    assert_eq!(r.cmds, vec!["a"]);
}

#[test]
fn selector_takes_strictly_greater() {
    let ms = vec![mon(1, "DP-1", false), mon(2, "HDMI-1", false)];
    let a = Action::from_configaction(&profile("DP-1", &[]), &[], &ms);
    let b = Action::from_configaction(&profile("DP-1,HDMI-1", &[]), &[], &ms);
    let c = Action::from_configaction(&profile("HDMI-1,DP-1", &[]), &[], &ms);
    assert_eq!(select_profile(&vec![a, b, c]).ok(), Some(1));
}

#[test]
fn selector_refuses_empty_list() {
    assert!(matches!(select_profile(&Vec::new()), Err(ResolveError::NoProfilesConfigured)));
    assert!(matches!(determine_config(Vec::new()), Err(ResolveError::NoProfilesConfigured)));
}

#[test]
fn alias_on_absent_serial_is_dropped_silently() {
    let ms = vec![mon(1, "DP-1", false)];
    let a = Alias::from_configalias(&"work:serial=NOPE".to_string(), &ms).ok().unwrap();
    assert_eq!(a.name, "work");
    assert_eq!(a.value, "NOPE");
    assert_eq!(a.specifier, AliasSpecifier::Serial);
    assert!(a.matchedmonitor.is_none());
    let raw = vec!["work:serial=NOPE".to_string(), "main:serial=SN1".to_string()];
    let resolved = parse_aliases(&raw, &ms).ok().unwrap();
    assert_eq!(resolved.len(), 1);
    assert_eq!(resolved[0].name, "main");
    // the token that named the dropped alias stays unresolved
    let act = Action::from_configaction(&profile("work,main", &[]), &resolved, &ms);
    assert_eq!(act.mons.not_found.required, vec!["work"]);
    assert_eq!(names(&act.mons.found.required), vec!["DP-1"]);
}

#[test]
fn alias_resolves_each_specifier() {
    let ms = vec![mon(1, "DP-1", false), mon(2, "HDMI-1", false), mon(3, "DP-2", false)];
    let cases = [
        ("a:id=2", "HDMI-1"),
        ("a:name=DP-2", "DP-2"),
        ("a:description=HDMI-1 panel", "HDMI-1"),
        ("a:make=Acme", "DP-1"),
        ("a:model=M-3", "DP-2"),
        ("a:serial=SN2", "HDMI-1"),
        ("a:id=+3", "DP-2"),
    ];
    for (decl, want) in cases {
        let a = Alias::from_configalias(&decl.to_string(), &ms).ok().unwrap();
        assert_eq!(a.matchedmonitor.map(|m| m.name), Some(want.to_string()), "{}", decl);
    }
}

#[test]
fn alias_errors() {
    let ms = vec![mon(1, "DP-1", false)];
    let err = |s: &str| Alias::from_configalias(&s.to_string(), &ms).err().unwrap();
    assert!(matches!(err("nocolon"), ConfigAliasError::MalformedAlias(s) if s == "nocolon"));
    assert!(matches!(err("a:b:name=x"), ConfigAliasError::MalformedAlias(_)));
    assert!(matches!(err("a:name"), ConfigAliasError::MalformedAlias(_)));
    assert!(matches!(err("a:name=x=y"), ConfigAliasError::MalformedAlias(_)));
    assert!(matches!(err("a:colour=red"), ConfigAliasError::UnknownSpecifier(s) if s == "colour"));
    assert!(matches!(err("a:id=one"), ConfigAliasError::InvalidId(s) if s == "one"));
    assert!(matches!(err("a:id=99999999999"), ConfigAliasError::InvalidId(_)));
    assert!(matches!(err("a:id="), ConfigAliasError::InvalidId(_)));
    let raw = vec!["ok:name=DP-1".to_string(), "bad:size=3".to_string(), "x".to_string()];
    assert!(matches!(parse_aliases(&raw, &ms), Err(ConfigAliasError::UnknownSpecifier(s)) if s == "size"));
}

#[test]
fn alias_replaces_token_before_lookup() {
    let ms = vec![mon(1, "DP-1", false), mon(2, "HDMI-1", false)];
    let aliases = parse_aliases(&vec!["tv:serial=SN2".to_string()], &ms).ok().unwrap();
    let act = Action::from_configaction(&profile("DP-1,&tv", &["x ${&mons1}"]), &aliases, &ms);
    assert_eq!(names(&act.mons.found.optional), vec!["HDMI-1"]);
    assert_eq!(act.confidence, 2);
}

#[test]
fn disabled_monitor_is_not_matched() {
    let ms = vec![mon(1, "DP-1", true)];
    let act = Action::from_configaction(&profile("DP-1", &[]), &[], &ms);
    assert!(act.mons.found.required.is_empty());
    assert_eq!(act.mons.not_found.required, vec!["DP-1"]);
    assert_eq!(act.confidence, 0);
}

#[test]
fn end_to_end_required_and_optional() {
    let conf = Config {
        aliases: vec![],
        actions: vec![profile("DP-1,&HDMI-1", &["echo ${mons1} ${&mons1}"])],
    };
    let ms = vec![mon(1, "DP-1", false), mon(2, "HDMI-1", false)];
    let r = resolve(&conf, &ms).ok().unwrap();
    assert_eq!(r.action.confidence, 2);
    assert_eq!(r.cmds, vec!["echo DP-1 HDMI-1"]);
    assert_eq!(r.complete, vec![true]);
    assert_eq!(r.action.cmds.cmds, vec!["echo ${mons1} ${&mons1}"]);
}

#[test]
fn end_to_end_purely_optional_profile_wins() {
    let conf = Config {
        aliases: vec![],
        actions: vec![profile("DP-9", &["first"]), profile("&HDMI-1", &["second"])],
    };
    let ms = vec![mon(1, "DP-1", false), mon(2, "HDMI-1", false)];
    let actions = transpose_config(&conf, &ms).ok().unwrap();
    assert_eq!(actions[0].confidence, 0);
    assert_eq!(actions[1].confidence, 1);
    let r = resolve(&conf, &ms).ok().unwrap();
    assert_eq!(r.index, 1);
    assert_eq!(r.cmds, vec!["second"]);
}

#[test]
fn pipeline_is_idempotent() {
    let conf = Config {
        aliases: vec!["main:make=Acme".to_string()],
        actions: vec![
            profile("main,&HDMI-1", &["a ${mons1}", "b ${&mons2}"]),
            profile("DP-1", &["c"]),
        ],
    };
    let ms = vec![mon(1, "DP-1", false), mon(2, "HDMI-1", false)];
    let r1 = resolve(&conf, &ms).ok().unwrap();
    let r2 = resolve(&conf, &ms).ok().unwrap();
    assert_eq!(r1.index, r2.index);
    assert_eq!(r1.cmds, r2.cmds);
    assert_eq!(r1.complete, r2.complete);
    assert_eq!(r1.action.confidence, r2.action.confidence);
    assert_eq!(r1.index, 0);
    assert_eq!(r1.cmds, vec!["a DP-1", "b ${&mons2}"]);
    assert_eq!(r1.complete, vec![true, false]);
}

#[test]
fn resolve_reports_alias_error_and_empty_config() {
    let ms = vec![mon(1, "DP-1", false)];
    let conf = Config { aliases: vec!["broken".to_string()], actions: vec![profile("DP-1", &[])] };
    assert!(matches!(resolve(&conf, &ms), Err(ResolveError::Alias(ConfigAliasError::MalformedAlias(_)))));
    let conf = Config { aliases: vec![], actions: vec![] };
    assert!(matches!(resolve(&conf, &ms), Err(ResolveError::NoProfilesConfigured)));
}

#[test]
fn monitor_lookups_take_the_first_match() {
    let list = MonList { monitors: vec![mon(1, "DP-1", false), mon(2, "DP-1", true), mon(3, "HDMI-1", false)] };
    assert_eq!(list.findByName("DP-1").map(|m| m.id), Some(1));
    assert_eq!(list.findById(3).map(|m| m.name), Some("HDMI-1".to_string()));
    assert_eq!(list.findByMake("Acme").map(|m| m.id), Some(1));
    assert_eq!(list.findByModel("M-2").map(|m| m.id), Some(2));
    assert_eq!(list.findBySerial("SN3").map(|m| m.id), Some(3));
    assert_eq!(list.findByDescription("HDMI-1 panel").map(|m| m.id), Some(3));
    assert!(list.findByName("eDP-1").is_none());
    assert!(list.findById(7).is_none());
}

#[test]
fn diagnostic_strings() {
    let ms = vec![mon(1, "DP-1", false), mon(2, "HDMI-1", false)];
    let act = Action::from_configaction(&profile("DP-1,HDMI-1,&X", &[]), &[], &ms);
    assert_eq!(act.mons.found.required_string(), " DP-1 HDMI-1");
    assert_eq!(act.mons.found.optional_string(), "");
    assert_eq!(act.mons.not_found.optional_string(), " X");
    let empty = ActionMon::new_string();
    assert_eq!(empty.required_string(), "");
    let m = ActionMon::new_mon();
    assert!(m.required.is_empty() && m.optional.is_empty());
}
