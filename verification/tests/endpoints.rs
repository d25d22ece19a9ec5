use freeswitch_esl_tokio::commands::endpoint::{
    DialString, Endpoint, ErrorEndpoint, GroupCall, LoopbackEndpoint, SofiaContact, SofiaEndpoint,
    SofiaGateway, UserEndpoint,
};
use freeswitch_esl_tokio::commands::originate::{Variables, VariablesType};

#[test]
fn sofia_endpoint_display() {
    let ep = SofiaEndpoint {
        profile: "internal".into(),
        destination: "1000@domain.com".into(),
        variables: None,
    };
    assert_eq!(ep.to_string(), "sofia/internal/1000@domain.com");
}

#[test]
fn sofia_endpoint_display_with_variables() {
    let mut vars = Variables::new(VariablesType::Default);
    vars.insert("originate_timeout", "30");
    let ep = SofiaEndpoint {
        profile: "internal".into(),
        destination: "1000@domain.com".into(),
        variables: Some(vars),
    };
    assert_eq!(
        ep.to_string(),
        "{originate_timeout=30}sofia/internal/1000@domain.com"
    );
}

#[test]
fn sofia_endpoint_from_str() {
    let ep: SofiaEndpoint = "sofia/internal/1000@domain.com"
        .parse()
        .unwrap();
    assert_eq!(ep.profile, "internal");
    assert_eq!(ep.destination, "1000@domain.com");
    assert!(ep
        .variables
        .is_none());
}

#[test]
fn sofia_endpoint_from_str_with_variables() {
    let ep: SofiaEndpoint = "{originate_timeout=30}sofia/internal/1000@domain.com"
        .parse()
        .unwrap();
    assert_eq!(ep.profile, "internal");
    assert_eq!(ep.destination, "1000@domain.com");
    assert_eq!(
        ep.variables
            .unwrap()
            .get("originate_timeout"),
        Some("30")
    );
}

#[test]
fn sofia_endpoint_round_trip() {
    let ep = SofiaEndpoint {
        profile: "external".into(),
        destination: "sip:user@host:5060".into(),
        variables: None,
    };
    let s = ep.to_string();
    let parsed: SofiaEndpoint = s
        .parse()
        .unwrap();
    assert_eq!(parsed, ep);
}

#[test]
fn sofia_gateway_display() {
    let ep = SofiaGateway {
        gateway: "my_provider".into(),
        destination: "18005551234".into(),
        profile: None,
        variables: None,
    };
    assert_eq!(ep.to_string(), "sofia/gateway/my_provider/18005551234");
}

#[test]
fn sofia_gateway_display_with_profile() {
    let ep = SofiaGateway {
        gateway: "my_provider".into(),
        destination: "18005551234".into(),
        profile: Some("external".into()),
        variables: None,
    };
    assert_eq!(
        ep.to_string(),
        "sofia/gateway/external::my_provider/18005551234"
    );
}

#[test]
fn sofia_gateway_display_with_variables() {
    let mut vars = Variables::new(VariablesType::Default);
    vars.insert("sip_h_X-Custom", "value");
    let ep = SofiaGateway {
        gateway: "gw1".into(),
        destination: "1234".into(),
        profile: None,
        variables: Some(vars),
    };
    assert_eq!(
        ep.to_string(),
        "{sip_h_X-Custom=value}sofia/gateway/gw1/1234"
    );
}

#[test]
fn sofia_gateway_from_str() {
    let ep: SofiaGateway = "sofia/gateway/my_provider/18005551234"
        .parse()
        .unwrap();
    assert_eq!(ep.gateway, "my_provider");
    assert_eq!(ep.destination, "18005551234");
    assert!(ep
        .profile
        .is_none());
}

#[test]
fn sofia_gateway_from_str_with_profile() {
    let ep: SofiaGateway = "sofia/gateway/external::my_provider/18005551234"
        .parse()
        .unwrap();
    assert_eq!(ep.gateway, "my_provider");
    assert_eq!(ep.destination, "18005551234");
    assert_eq!(
        ep.profile
            .as_deref(),
        Some("external")
    );
}

#[test]
fn sofia_gateway_round_trip() {
    let ep = SofiaGateway {
        gateway: "carrier".into(),
        destination: "15551234567".into(),
        profile: Some("external".into()),
        variables: None,
    };
    let s = ep.to_string();
    let parsed: SofiaGateway = s
        .parse()
        .unwrap();
    assert_eq!(parsed, ep);
}

#[test]
fn endpoint_loopback_display() {
    let ep = LoopbackEndpoint {
        extension: "9199".into(),
        context: "default".into(),
        variables: None,
    };
    assert_eq!(ep.to_string(), "loopback/9199/default");
}

#[test]
fn endpoint_loopback_display_with_variables() {
    let mut vars = Variables::new(VariablesType::Default);
    vars.insert("loopback_initial_codec", "L16@48000h");
    let ep = LoopbackEndpoint {
        extension: "100".into(),
        context: "test".into(),
        variables: Some(vars),
    };
    assert_eq!(
        ep.to_string(),
        "{loopback_initial_codec=L16@48000h}loopback/100/test"
    );
}

#[test]
fn endpoint_loopback_from_str() {
    let ep: LoopbackEndpoint = "loopback/9199/test"
        .parse()
        .unwrap();
    assert_eq!(ep.extension, "9199");
    assert_eq!(ep.context, "test");
}

#[test]
fn endpoint_loopback_from_str_no_context_defaults() {
    let ep: LoopbackEndpoint = "loopback/9199"
        .parse()
        .unwrap();
    assert_eq!(ep.extension, "9199");
    assert_eq!(ep.context, "default");
}

#[test]
fn endpoint_loopback_round_trip() {
    let ep = LoopbackEndpoint {
        extension: "100".into(),
        context: "myctx".into(),
        variables: None,
    };
    let s = ep.to_string();
    let parsed: LoopbackEndpoint = s
        .parse()
        .unwrap();
    assert_eq!(parsed, ep);
}

#[test]
fn endpoint_user_endpoint_display() {
    let ep = UserEndpoint {
        name: "1000".into(),
        domain: Some("domain.com".into()),
        variables: None,
    };
    assert_eq!(ep.to_string(), "user/1000@domain.com");
}

#[test]
fn endpoint_user_endpoint_display_no_domain() {
    let ep = UserEndpoint {
        name: "1000".into(),
        domain: None,
        variables: None,
    };
    assert_eq!(ep.to_string(), "user/1000");
}

#[test]
fn endpoint_user_endpoint_from_str() {
    let ep: UserEndpoint = "user/1000@domain.com"
        .parse()
        .unwrap();
    assert_eq!(ep.name, "1000");
    assert_eq!(
        ep.domain
            .as_deref(),
        Some("domain.com")
    );
}

#[test]
fn endpoint_user_endpoint_from_str_no_domain() {
    let ep: UserEndpoint = "user/1000"
        .parse()
        .unwrap();
    assert_eq!(ep.name, "1000");
    assert!(ep
        .domain
        .is_none());
}

#[test]
fn endpoint_user_endpoint_round_trip() {
    let ep = UserEndpoint {
        name: "bob".into(),
        domain: Some("example.com".into()),
        variables: None,
    };
    let s = ep.to_string();
    let parsed: UserEndpoint = s
        .parse()
        .unwrap();
    assert_eq!(parsed, ep);
}

#[test]
fn sofia_contact_display() {
    let ep = SofiaContact {
        user: "1000".into(),
        domain: "domain.com".into(),
        profile: None,
        variables: None,
    };
    assert_eq!(ep.to_string(), "${sofia_contact(1000@domain.com)}");
}

#[test]
fn sofia_contact_display_with_profile() {
    let ep = SofiaContact {
        user: "1000".into(),
        domain: "domain.com".into(),
        profile: Some("internal".into()),
        variables: None,
    };
    assert_eq!(ep.to_string(), "${sofia_contact(internal/1000@domain.com)}");
}

#[test]
fn sofia_contact_display_all_profiles() {
    let ep = SofiaContact {
        user: "1000".into(),
        domain: "domain.com".into(),
        profile: Some("*".into()),
        variables: None,
    };
    assert_eq!(ep.to_string(), "${sofia_contact(*/1000@domain.com)}");
}

#[test]
fn sofia_contact_display_with_variables() {
    let mut vars = Variables::new(VariablesType::Default);
    vars.insert("presence_id", "1000@domain.com");
    let ep = SofiaContact {
        user: "1000".into(),
        domain: "domain.com".into(),
        profile: None,
        variables: Some(vars),
    };
    assert_eq!(
        ep.to_string(),
        "{presence_id=1000@domain.com}${sofia_contact(1000@domain.com)}"
    );
}

#[test]
fn sofia_contact_from_str() {
    let ep: SofiaContact = "${sofia_contact(1000@domain.com)}"
        .parse()
        .unwrap();
    assert_eq!(ep.user, "1000");
    assert_eq!(ep.domain, "domain.com");
    assert!(ep
        .profile
        .is_none());
}

#[test]
fn sofia_contact_from_str_with_profile() {
    let ep: SofiaContact = "${sofia_contact(internal/1000@domain.com)}"
        .parse()
        .unwrap();
    assert_eq!(ep.user, "1000");
    assert_eq!(ep.domain, "domain.com");
    assert_eq!(
        ep.profile
            .as_deref(),
        Some("internal")
    );
}

#[test]
fn sofia_contact_round_trip() {
    let ep = SofiaContact {
        user: "bob".into(),
        domain: "example.com".into(),
        profile: Some("*".into()),
        variables: None,
    };
    let s = ep.to_string();
    let parsed: SofiaContact = s
        .parse()
        .unwrap();
    assert_eq!(parsed, ep);
}

#[test]
fn endpoint_group_call_display() {
    let ep = GroupCall {
        group: "support".into(),
        domain: "domain.com".into(),
        order: None,
        variables: None,
    };
    assert_eq!(ep.to_string(), "${group_call(support@domain.com)}");
}

#[test]
fn endpoint_group_call_display_with_order() {
    let ep = GroupCall {
        group: "support".into(),
        domain: "domain.com".into(),
        order: Some("A".into()),
        variables: None,
    };
    assert_eq!(ep.to_string(), "${group_call(support@domain.com+A)}");
}

#[test]
fn endpoint_group_call_from_str() {
    let ep: GroupCall = "${group_call(support@domain.com)}"
        .parse()
        .unwrap();
    assert_eq!(ep.group, "support");
    assert_eq!(ep.domain, "domain.com");
    assert!(ep
        .order
        .is_none());
}

#[test]
fn endpoint_group_call_from_str_with_order() {
    let ep: GroupCall = "${group_call(support@domain.com+A)}"
        .parse()
        .unwrap();
    assert_eq!(ep.group, "support");
    assert_eq!(ep.domain, "domain.com");
    assert_eq!(
        ep.order
            .as_deref(),
        Some("A")
    );
}

#[test]
fn endpoint_group_call_round_trip() {
    let ep = GroupCall {
        group: "calltakers".into(),
        domain: "example.com".into(),
        order: Some("E".into()),
        variables: None,
    };
    let s = ep.to_string();
    let parsed: GroupCall = s
        .parse()
        .unwrap();
    assert_eq!(parsed, ep);
}

#[test]
fn endpoint_error_endpoint_display() {
    let ep = ErrorEndpoint {
        cause: "user_busy".into(),
    };
    assert_eq!(ep.to_string(), "error/user_busy");
}

#[test]
fn endpoint_error_endpoint_from_str() {
    let ep: ErrorEndpoint = "error/user_busy"
        .parse()
        .unwrap();
    assert_eq!(ep.cause, "user_busy");
}

#[test]
fn endpoint_error_endpoint_round_trip() {
    let ep = ErrorEndpoint {
        cause: "no_answer".into(),
    };
    let s = ep.to_string();
    let parsed: ErrorEndpoint = s
        .parse()
        .unwrap();
    assert_eq!(parsed, ep);
}

#[test]
fn endpoint_from_str_sofia() {
    let ep: Endpoint = "sofia/internal/1000@domain.com"
        .parse()
        .unwrap();
    assert!(matches!(ep, Endpoint::Sofia(_)));
}

#[test]
fn endpoint_from_str_sofia_gateway() {
    let ep: Endpoint = "sofia/gateway/my_gw/1234"
        .parse()
        .unwrap();
    assert!(matches!(ep, Endpoint::SofiaGateway(_)));
}

#[test]
fn endpoint_from_str_loopback() {
    let ep: Endpoint = "loopback/9199/test"
        .parse()
        .unwrap();
    assert!(matches!(ep, Endpoint::Loopback(_)));
}

#[test]
fn endpoint_from_str_user() {
    let ep: Endpoint = "user/1000@domain.com"
        .parse()
        .unwrap();
    assert!(matches!(ep, Endpoint::User(_)));
}

#[test]
fn endpoint_from_str_sofia_contact() {
    let ep: Endpoint = "${sofia_contact(1000@domain.com)}"
        .parse()
        .unwrap();
    assert!(matches!(ep, Endpoint::SofiaContact(_)));
}

#[test]
fn endpoint_from_str_group_call() {
    let ep: Endpoint = "${group_call(support@domain.com+A)}"
        .parse()
        .unwrap();
    assert!(matches!(ep, Endpoint::GroupCall(_)));
}

#[test]
fn endpoint_from_str_error() {
    let ep: Endpoint = "error/user_busy"
        .parse()
        .unwrap();
    assert!(matches!(ep, Endpoint::Error(_)));
}

#[test]
fn endpoint_from_str_unknown_errors() {
    let result = "verto/1234".parse::<Endpoint>();
    assert!(result.is_err());
}

#[test]
fn endpoint_from_str_with_variables() {
    let ep: Endpoint = "{timeout=30}sofia/internal/1000@domain.com"
        .parse()
        .unwrap();
    if let Endpoint::Sofia(inner) = &ep {
        assert_eq!(inner.profile, "internal");
        assert!(inner
            .variables
            .is_some());
    } else {
        panic!("expected Sofia variant");
    }
}

#[test]
fn endpoint_display_delegates_to_inner() {
    let ep = Endpoint::Sofia(SofiaEndpoint {
        profile: "internal".into(),
        destination: "1000@domain.com".into(),
        variables: None,
    });
    assert_eq!(ep.to_string(), "sofia/internal/1000@domain.com");
}

#[test]
fn dial_string_variables_returns_some() {
    let mut vars = Variables::new(VariablesType::Default);
    vars.insert("k", "v");
    let ep = SofiaEndpoint {
        profile: "internal".into(),
        destination: "1000".into(),
        variables: Some(vars),
    };
    assert!(ep
        .variables()
        .is_some());
    assert_eq!(
        ep.variables()
            .unwrap()
            .get("k"),
        Some("v")
    );
}

#[test]
fn dial_string_variables_returns_none() {
    let ep = SofiaEndpoint {
        profile: "internal".into(),
        destination: "1000".into(),
        variables: None,
    };
    assert!(ep
        .variables()
        .is_none());
}

#[test]
fn dial_string_set_variables() {
    let mut ep = SofiaEndpoint {
        profile: "internal".into(),
        destination: "1000".into(),
        variables: None,
    };
    let mut vars = Variables::new(VariablesType::Channel);
    vars.insert("k", "v");
    ep.set_variables(Some(vars));
    assert!(ep
        .variables()
        .is_some());
}

#[test]
fn dial_string_error_endpoint_no_variables() {
    let ep = ErrorEndpoint {
        cause: "user_busy".into(),
    };
    assert!(ep
        .variables()
        .is_none());
}

#[test]
fn dial_string_on_endpoint_enum() {
    let mut vars = Variables::new(VariablesType::Default);
    vars.insert("k", "v");
    let ep = Endpoint::Sofia(SofiaEndpoint {
        profile: "internal".into(),
        destination: "1000".into(),
        variables: Some(vars),
    });
    assert!(ep
        .variables()
        .is_some());
}

#[test]
fn group_call_group_call_display() {
    let ep = GroupCall {
        group: "support".into(),
        domain: "domain.com".into(),
        order: None,
        variables: None,
    };
    assert_eq!(ep.to_string(), "${group_call(support@domain.com)}");
}

#[test]
fn group_call_group_call_display_with_order() {
    let ep = GroupCall {
        group: "support".into(),
        domain: "domain.com".into(),
        order: Some("A".into()),
        variables: None,
    };
    assert_eq!(ep.to_string(), "${group_call(support@domain.com+A)}");
}

#[test]
fn group_call_group_call_from_str() {
    let ep: GroupCall = "${group_call(support@domain.com)}"
        .parse()
        .unwrap();
    assert_eq!(ep.group, "support");
    assert_eq!(ep.domain, "domain.com");
    assert!(ep
        .order
        .is_none());
}

#[test]
fn group_call_group_call_from_str_with_order() {
    let ep: GroupCall = "${group_call(support@domain.com+A)}"
        .parse()
        .unwrap();
    assert_eq!(ep.group, "support");
    assert_eq!(ep.domain, "domain.com");
    assert_eq!(
        ep.order
            .as_deref(),
        Some("A")
    );
}

#[test]
fn group_call_group_call_round_trip() {
    let ep = GroupCall {
        group: "calltakers".into(),
        domain: "example.com".into(),
        order: Some("E".into()),
        variables: None,
    };
    let s = ep.to_string();
    let parsed: GroupCall = s
        .parse()
        .unwrap();
    assert_eq!(parsed, ep);
}
#[test]
fn loopback_loopback_display() {
    let ep = LoopbackEndpoint {
        extension: "9199".into(),
        context: "default".into(),
        variables: None,
    };
    assert_eq!(ep.to_string(), "loopback/9199/default");
}

#[test]
fn loopback_loopback_display_with_variables() {
    let mut vars = Variables::new(VariablesType::Default);
    vars.insert("loopback_initial_codec", "L16@48000h");
    let ep = LoopbackEndpoint {
        extension: "100".into(),
        context: "test".into(),
        variables: Some(vars),
    };
    assert_eq!(
        ep.to_string(),
        "{loopback_initial_codec=L16@48000h}loopback/100/test"
    );
}

#[test]
fn loopback_loopback_from_str() {
    let ep: LoopbackEndpoint = "loopback/9199/test"
        .parse()
        .unwrap();
    assert_eq!(ep.extension, "9199");
    assert_eq!(ep.context, "test");
}

#[test]
fn loopback_loopback_from_str_no_context_defaults() {
    let ep: LoopbackEndpoint = "loopback/9199"
        .parse()
        .unwrap();
    assert_eq!(ep.extension, "9199");
    assert_eq!(ep.context, "default");
}

#[test]
fn loopback_loopback_round_trip() {
    let ep = LoopbackEndpoint {
        extension: "100".into(),
        context: "myctx".into(),
        variables: None,
    };
    let s = ep.to_string();
    let parsed: LoopbackEndpoint = s
        .parse()
        .unwrap();
    assert_eq!(parsed, ep);
}
#[test]
fn user_user_endpoint_display() {
    let ep = UserEndpoint {
        name: "1000".into(),
        domain: Some("domain.com".into()),
        variables: None,
    };
    assert_eq!(ep.to_string(), "user/1000@domain.com");
}

#[test]
fn user_user_endpoint_display_no_domain() {
    let ep = UserEndpoint {
        name: "1000".into(),
        domain: None,
        variables: None,
    };
    assert_eq!(ep.to_string(), "user/1000");
}

#[test]
fn user_user_endpoint_from_str() {
    let ep: UserEndpoint = "user/1000@domain.com"
        .parse()
        .unwrap();
    assert_eq!(ep.name, "1000");
    assert_eq!(
        ep.domain
            .as_deref(),
        Some("domain.com")
    );
}

#[test]
fn user_user_endpoint_from_str_no_domain() {
    let ep: UserEndpoint = "user/1000"
        .parse()
        .unwrap();
    assert_eq!(ep.name, "1000");
    assert!(ep
        .domain
        .is_none());
}

#[test]
fn user_user_endpoint_round_trip() {
    let ep = UserEndpoint {
        name: "bob".into(),
        domain: Some("example.com".into()),
        variables: None,
    };
    let s = ep.to_string();
    let parsed: UserEndpoint = s
        .parse()
        .unwrap();
    assert_eq!(parsed, ep);
}
#[test]
fn error_error_endpoint_display() {
    let ep = ErrorEndpoint {
        cause: "user_busy".into(),
    };
    assert_eq!(ep.to_string(), "error/user_busy");
}

#[test]
fn error_error_endpoint_from_str() {
    let ep: ErrorEndpoint = "error/user_busy"
        .parse()
        .unwrap();
    assert_eq!(ep.cause, "user_busy");
}

#[test]
fn error_error_endpoint_round_trip() {
    let ep = ErrorEndpoint {
        cause: "no_answer".into(),
    };
    let s = ep.to_string();
    let parsed: ErrorEndpoint = s
        .parse()
        .unwrap();
    assert_eq!(parsed, ep);
}
