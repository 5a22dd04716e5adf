use hyprswitch::action::ActionMon;
use hyprswitch::monitor::Monitor;
use hyprswitch::template::{parse_cmd, substitute_all, subst_pass_exec};

fn mon(name: &str) -> Monitor {
    Monitor {
        id: 0,
        name: name.to_string(),
        description: String::new(),
        make: String::new(),
        model: String::new(),
        serial: String::new(),
        disabled: false,
    }
}

fn mons(req: &[&str], opt: &[&str]) -> ActionMon<Monitor> {
    ActionMon { required: req.iter().map(|n| mon(n)).collect(), optional: opt.iter().map(|n| mon(n)).collect() }
}

#[test]
fn two_pass_substitution() {
    let (s, ok) = parse_cmd("cmd ${mons1} ${&mons1}", &mons(&["DP-1"], &["HDMI-1"]));
    assert_eq!(s, "cmd DP-1 HDMI-1");
    assert!(ok);
}

#[test]
fn required_name_holding_optional_placeholder_is_filled_again() {
    let (s, ok) = parse_cmd("x ${mons1}", &mons(&["${&mons1}"], &["HDMI-1"]));
    assert_eq!(s, "x HDMI-1");
    assert!(ok);
}

#[test]
fn out_of_range_placeholders_stay() {
    let (s, ok) = parse_cmd("a ${mons2} b ${mons1} c ${&mons1} d ${mons0}", &mons(&["DP-1"], &[]));
    assert_eq!(s, "a ${mons2} b DP-1 c ${&mons1} d ${mons0}");
    assert!(!ok);
}

#[test]
fn every_occurrence_is_replaced() {
    let (s, ok) = parse_cmd("${mons2}-${mons1}-${mons2}-${mons01}", &mons(&["A", "B"], &[]));
    assert_eq!(s, "B-A-B-A");
    assert!(ok);
}

#[test]
fn malformed_placeholders_pass_through() {
    let text = "${mons} ${monsX} $mons1 ${mons1 ${&mons}";
    let (s, ok) = parse_cmd(text, &mons(&["A"], &["B"]));
    assert_eq!(s, text);
    assert!(ok);
    let (s, _) = parse_cmd("${mons${mons1}}", &mons(&["A"], &[]));
    assert_eq!(s, "${monsA}");
}

#[test]
fn template_without_placeholders_is_unchanged() {
    let (s, ok) = parse_cmd("hyprctl reload", &mons(&[], &[]));
    assert_eq!(s, "hyprctl reload");
    assert!(ok);
    let (s, ok) = parse_cmd("", &mons(&[], &[]));
    assert_eq!(s, "");
    assert!(ok);
}

#[test]
fn huge_index_is_out_of_range() {
    let (s, ok) = parse_cmd("${mons99999999999999999999999999}", &mons(&["A"], &[]));
    assert_eq!(s, "${mons99999999999999999999999999}");
    assert!(!ok);
}

#[test]
fn substitute_all_keeps_order_and_length() {
    let cmds = vec!["a ${mons1}".to_string(), "b".to_string(), "c ${&mons3}".to_string()];
    let (out, flags) = substitute_all(&cmds, &mons(&["X"], &["Y"]));
    assert_eq!(out, vec!["a X", "b", "c ${&mons3}"]);
    assert_eq!(flags, vec![true, true, false]);
}

#[test]
fn single_pass_uses_its_prefix_only() {
    let names = vec!["N".to_string()];
    let (s, ok) = subst_pass_exec("${mons1} ${&mons1}", "${&mons", &names);
    assert_eq!(s, "${mons1} N");
    assert!(ok);
}
