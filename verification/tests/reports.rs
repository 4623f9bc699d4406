//! From findings to reports.

use kumuteva::assessment::{
    assess_operation, AssessableOperation, AssessableResource, AssessmentConfig, AutonomyRatio,
    OperationAssessment, System,
};
use kumuteva::control_plane::resources::{ControlPlaneOperation, ControlPlaneResource};
use kumuteva::isolation::{
    compute_min_known_isolation_level, compute_overall_isolation_level, CrossTenantResult,
    IsolationLevel,
};
use kumuteva::multitenancy::{
    calculate_control_plane_autonomy_levels, format_isolation, format_isolation_summary,
    format_isolation_with_bound, format_ratio_with_icon, MultitenancyReport, Percentages,
};
use kumuteva::network::resources::{NetworkOperation, NetworkResource};
use kumuteva::paint::{assemble, paint, paint_lines};
use kumuteva::render::{get_terminal_width, render_operation, sign_of_isolation, Span, Style};
use kumuteva::report::{compile_report, SubsystemReport};
use kumuteva::run::{run_assessment, AssessmentStep, Checked};

fn soft(reason: &str) -> IsolationLevel {
    IsolationLevel::Soft(reason.to_string())
}

fn finding(isolation: IsolationLevel, autonomy: bool) -> OperationAssessment {
    OperationAssessment {
        isolation,
        autonomy,
        details: Some("what was seen".to_string()),
    }
}

fn text_of(lines: &[Vec<Span>]) -> Vec<String> {
    lines
        .iter()
        .map(|line| line.iter().map(|span| span.text.as_str()).collect())
        .collect()
}

// ---- Levels ----------------------------------------------------------------

#[test]
fn the_overall_level_is_the_first_of_the_lowest() {
    assert_eq!(
        compute_overall_isolation_level(&vec![]),
        IsolationLevel::Hard
    );
    assert_eq!(
        compute_overall_isolation_level(&vec![IsolationLevel::Hard, soft("a"), soft("b")]),
        soft("a")
    );
    assert_eq!(
        compute_overall_isolation_level(&vec![
            soft("a"),
            IsolationLevel::Unknown,
            IsolationLevel::NoIsolation,
            IsolationLevel::Hard,
        ]),
        IsolationLevel::NoIsolation
    );
}

#[test]
fn the_known_levels_bound_an_unknown_one() {
    assert_eq!(
        compute_min_known_isolation_level(&vec![
            IsolationLevel::Unknown,
            IsolationLevel::Hard,
            soft("a"),
        ]),
        Some(soft("a"))
    );
    assert_eq!(
        compute_min_known_isolation_level(&vec![IsolationLevel::Unknown]),
        None
    );
    assert_eq!(compute_min_known_isolation_level(&vec![]), None);
}

#[test]
fn levels_are_ordered_from_breach_to_hard() {
    assert!(IsolationLevel::NoIsolation < IsolationLevel::Unknown);
    assert!(IsolationLevel::Unknown < soft("a"));
    assert!(soft("b") < IsolationLevel::Hard);
    assert_eq!(IsolationLevel::NoIsolation.label(), "None");
    assert_eq!(IsolationLevel::Unknown.label(), "Unknown");
    assert_eq!(IsolationLevel::Hard.label(), "Hard");
}

#[test]
fn an_unauthorized_operation_is_assessed_without_an_effect() {
    let assessed = assess_operation(false, None).unwrap();
    assert!(!assessed.autonomy);
    assert_eq!(assessed.isolation, IsolationLevel::Hard);
    assert_eq!(assessed.details.as_deref(), Some("Operation not authorized"));
    assert!(assess_operation(true, None).is_none());
}

#[test]
fn flags_select_what_is_assessed() {
    assert_eq!(
        AssessmentConfig::from_flags(false, false, false, false),
        AssessmentConfig::all()
    );
    let some = AssessmentConfig::from_flags(true, false, true, false);
    assert_eq!(some.enabled_systems(), vec!["control-plane", "network"]);
    assert!(some.has_any());
    assert!(!AssessmentConfig::none().has_any());
}

#[test]
fn ratios_add_up() {
    let mut ratio = AutonomyRatio::default();
    ratio.add(&AutonomyRatio {
        allowed: 1,
        total: 2,
    });
    ratio.add(&AutonomyRatio {
        allowed: 2,
        total: 3,
    });
    assert_eq!((ratio.allowed, ratio.total), (3, 5));
    assert!(ratio.is_half());
    assert!(!ratio.is_perfect());
}

// ---- Subsystems ------------------------------------------------------------

fn network_report() -> SubsystemReport<NetworkResource> {
    compile_report(
        "Network",
        vec![
            (
                NetworkResource::PodNetwork,
                vec![(
                    NetworkOperation::ConnectToPod,
                    finding(IsolationLevel::NoIsolation, true),
                )],
            ),
            (
                NetworkResource::ServiceNetwork,
                vec![
                    (
                        NetworkOperation::ConnectToService,
                        finding(IsolationLevel::Unknown, false),
                    ),
                    (
                        NetworkOperation::ExposeNodePort,
                        finding(soft("shared"), true),
                    ),
                ],
            ),
            (NetworkResource::DnsResolution, vec![]),
        ],
    )
}

#[test]
fn a_breach_is_the_verdict_and_is_warned_of() {
    let report = network_report();
    assert_eq!(report.isolation_level, IsolationLevel::NoIsolation);
    assert_eq!(report.assessments.len(), 2);
    assert_eq!(
        (report.autonomy_ratio.allowed, report.autonomy_ratio.total),
        (2, 3)
    );
    assert_eq!(
        report.warnings,
        vec![
            format!(
                "Resource {} has unsafe cross-tenant operations",
                NetworkResource::PodNetwork.label()
            ),
            format!(
                "Resource {} has unknown isolation for some operations",
                NetworkResource::ServiceNetwork.label()
            ),
        ]
    );
    assert_eq!(report.min_known_isolation(), Some(IsolationLevel::NoIsolation));
}

#[test]
fn a_repeated_operation_is_entered_once() {
    let report = compile_report(
        "Network",
        vec![(
            NetworkResource::PodNetwork,
            vec![
                (
                    NetworkOperation::ConnectToPod,
                    finding(IsolationLevel::NoIsolation, true),
                ),
                (
                    NetworkOperation::ConnectToPod,
                    finding(IsolationLevel::Hard, false),
                ),
            ],
        )],
    );
    assert_eq!(report.assessments[0].operations.len(), 1);
    assert_eq!(report.isolation_level, IsolationLevel::Hard);
    assert_eq!(report.autonomy_ratio.total, 1);
    assert!(report.warnings.is_empty());
}

#[test]
fn a_run_checks_every_operation_in_turn() {
    let mut log: Vec<Checked> = Vec::new();
    let mut authorizations = 0;
    let mut effects = 0;
    let report = loop {
        match run_assessment::<NetworkResource>("Network", &log) {
            AssessmentStep::CheckAuthorization(_, operation) => {
                authorizations += 1;
                log.push(Checked {
                    authorized: Ok(!matches!(operation, NetworkOperation::ResolveDns)),
                    effect: None,
                });
            }
            AssessmentStep::CheckEffect(_, _) => {
                effects += 1;
                log.last_mut().unwrap().effect = Some(Ok(CrossTenantResult {
                    isolation: soft("seen"),
                    autonomy: true,
                    details: "details".to_string(),
                }));
            }
            AssessmentStep::Failed(error) => panic!("{error}"),
            AssessmentStep::Done(report) => break report,
        }
    };
    assert_eq!((authorizations, effects), (4, 3));
    assert_eq!(report.name, "Network");
    assert_eq!(report.isolation_level, soft("seen"));
    assert_eq!(
        (report.autonomy_ratio.allowed, report.autonomy_ratio.total),
        (3, 4)
    );
    assert_eq!(report.assessments.len(), NetworkResource::all().len());
}

#[test]
fn a_run_ends_with_the_error_of_a_check() {
    let log = vec![Checked {
        authorized: Err("no cluster".to_string()),
        effect: None,
    }];
    assert!(matches!(
        run_assessment::<ControlPlaneResource>("Control Plane", &log),
        AssessmentStep::Failed(error) if error == "no cluster"
    ));
    let log = vec![Checked {
        authorized: Ok(true),
        effect: Some(Err("lost".to_string())),
    }];
    assert!(matches!(
        run_assessment::<ControlPlaneResource>("Control Plane", &log),
        AssessmentStep::Failed(error) if error == "lost"
    ));
}

#[test]
fn a_report_is_drawn_as_a_tree() {
    let lines = network_report().render(100);
    let text = text_of(&lines);
    assert!(text.iter().any(|l| l.contains("Network")), "{text:#?}");
    assert!(text.iter().any(|l| l.contains("├─") || l.contains("└─")));
    assert!(lines
        .iter()
        .flatten()
        .any(|span| span.style != Style::Plain));
    // Operations stand in the order of their labels.
    let expose = text
        .iter()
        .position(|l| l.contains(&NetworkOperation::ExposeNodePort.label()));
    let connect = text
        .iter()
        .position(|l| l.contains(&NetworkOperation::ConnectToService.label()));
    assert!(expose.is_some() && connect.is_some());
    assert_eq!(
        connect < expose,
        NetworkOperation::ConnectToService.label() < NetworkOperation::ExposeNodePort.label()
    );
    let one = render_operation(&finding(IsolationLevel::Hard, true));
    assert!(one.iter().any(|span| span.text.contains("🟢")));
    assert_eq!(sign_of_isolation(&IsolationLevel::Unknown), "❓");
}

fn span(text: &str, style: Style) -> Span {
    Span {
        text: text.to_string(),
        style,
    }
}

#[test]
fn every_style_has_its_sequence() {
    colored::control::set_override(true);
    for (style, begin) in [
        (Style::Bold, "\u{1b}[1m"),
        (Style::Dimmed, "\u{1b}[2m"),
        (Style::Blue, "\u{1b}[34m"),
        (Style::Cyan, "\u{1b}[36m"),
        (Style::Green, "\u{1b}[32m"),
        (Style::Yellow, "\u{1b}[33m"),
        (Style::YellowBold, "\u{1b}[1;33m"),
        (Style::Red, "\u{1b}[31m"),
    ] {
        assert_eq!(paint(&span("text", style)), format!("{begin}text\u{1b}[0m"));
    }
    assert_eq!(paint(&span("text", Style::Plain)), "text");
    // A style that ends inside of the text is begun anew.
    assert_eq!(
        paint(&span("a\u{1b}[0mb", Style::Red)),
        "\u{1b}[31ma\u{1b}[0m\u{1b}[31mb\u{1b}[0m"
    );
}

#[test]
fn lines_are_assembled_piece_by_piece() {
    colored::control::set_override(false);
    let lines = vec![
        vec![span("a", Style::Plain), span("b", Style::Red)],
        vec![],
        vec![span("c", Style::Bold)],
    ];
    assert_eq!(assemble(&paint_lines(&lines)), "ab\n\nc\n");
    colored::control::set_override(true);
    assert_eq!(
        assemble(&paint_lines(&lines)),
        "a\u{1b}[31mb\u{1b}[0m\n\n\u{1b}[1mc\u{1b}[0m\n"
    );
}

#[test]
fn the_width_falls_back_where_there_is_no_terminal() {
    assert_eq!(get_terminal_width(Some(120)), 118);
    assert_eq!(get_terminal_width(None), 80);
}

// ---- The whole -------------------------------------------------------------

fn percentages() -> Percentages {
    let p = |t: &str| t.to_string();
    Percentages {
        control_plane: p("50.0"),
        workload_level: p("50.0"),
        scope_level: p("0.0"),
        infrastructure_level: p("0.0"),
        cluster_level: p("0.0"),
        storage: p("0.0"),
        network: p("66.7"),
        workload: p("0.0"),
        overall: p("60.0"),
    }
}

fn control_plane_report() -> SubsystemReport<ControlPlaneResource> {
    compile_report(
        "Control Plane",
        vec![(
            ControlPlaneResource::Pod,
            vec![
                (
                    ControlPlaneOperation::Create,
                    finding(IsolationLevel::Hard, true),
                ),
                (
                    ControlPlaneOperation::Get,
                    finding(IsolationLevel::Unknown, false),
                ),
            ],
        )],
    )
}

fn whole() -> MultitenancyReport<NetworkResource, NetworkResource> {
    let control_plane = control_plane_report();
    let levels = calculate_control_plane_autonomy_levels(&control_plane.assessments);
    MultitenancyReport {
        control_plane: Some(control_plane),
        control_plane_autonomy_levels: Some(levels),
        storage: None,
        network: Some(network_report()),
        workload: None,
    }
}

#[test]
fn the_whole_report_takes_the_worst_and_adds_the_rest() {
    let report = whole();
    assert_eq!(report.overall_isolation(), IsolationLevel::NoIsolation);
    let ratio = report.overall_autonomy_ratio();
    assert_eq!((ratio.allowed, ratio.total), (3, 5));
    let levels = report.control_plane_autonomy_levels.as_ref().unwrap();
    assert_eq!((levels.workload.allowed, levels.workload.total), (1, 2));
    assert_eq!(levels.cluster.total, 0);
    let parts = [
        levels.workload,
        levels.scope,
        levels.infrastructure,
        levels.cluster,
    ];
    let ratio = report.control_plane.as_ref().unwrap().autonomy_ratio;
    assert_eq!(parts.iter().map(|p| p.allowed).sum::<usize>(), ratio.allowed);
    assert_eq!(parts.iter().map(|p| p.total).sum::<usize>(), ratio.total);
}

#[test]
fn systems_are_assessed_in_their_order() {
    assert_eq!(
        AssessmentConfig::all().plan(),
        vec![
            (System::ControlPlane, 10),
            (System::Storage, 2),
            (System::Network, 2),
            (System::Workload, 0),
        ]
    );
    assert_eq!(
        AssessmentConfig::from_flags(false, false, true, false).plan(),
        vec![(System::Network, 2)]
    );
    assert!(AssessmentConfig::none().plan().is_empty());
}

#[test]
fn the_whole_report_is_a_table_between_a_title_and_a_summary() {
    let report = whole();
    let rows = report.rows(&percentages());
    assert_eq!(rows[0][0], "Control Plane");
    assert_eq!(rows[0][1], "Isolation");
    assert_eq!(rows[1][2], "🟡 1/2 (50.0%)");
    assert_eq!(rows.len(), 9);

    let text = report.render(&percentages());
    assert!(text.starts_with("\n📊 Multi-Tenancy Assessment Report\n"));
    assert!(text.contains("Overall Autonomy:  🟡 3/5 (60.0%)"), "{text}");
    // The table is drawn with rounded corners around every cell.
    assert!(text.contains('╭') && text.contains('╯'), "{text}");
    for cell in ["System", "Property", "Value", "  └─ Cluster", "🟡 1/2 (50.0%)"] {
        assert!(text.contains(cell), "{cell} in {text}");
    }
    assert_eq!(report.around(&percentages(), "TABLE").matches("TABLE").count(), 1);

    let empty: MultitenancyReport<NetworkResource, NetworkResource> = MultitenancyReport {
        control_plane: None,
        control_plane_autonomy_levels: None,
        storage: None,
        network: None,
        workload: None,
    };
    assert!(empty.render(&percentages()).ends_with("No assessments were run.\n"));
    assert_eq!(empty.overall_isolation(), IsolationLevel::Unknown);
}

#[test]
fn an_unknown_level_is_written_with_its_bound() {
    assert_eq!(format_isolation(&IsolationLevel::Hard), "✅ Hard");
    assert_eq!(format_isolation(&IsolationLevel::NoIsolation), "❌ None");
    assert_eq!(
        format_isolation_with_bound(&IsolationLevel::Unknown, Some(&soft("a"))),
        "❓/🟠 Unknown/Soft"
    );
    assert_eq!(
        format_isolation_with_bound(&IsolationLevel::Unknown, None),
        "❓ Unknown"
    );
    assert_eq!(
        format_isolation_summary(&IsolationLevel::Unknown, Some(&IsolationLevel::Hard)),
        "❓ Unknown but no more than ✅ Hard"
    );
    assert_eq!(
        format_isolation_summary(&soft("a"), None),
        "🟠 Soft"
    );
}

#[test]
fn a_ratio_is_written_with_its_sign() {
    let ratio = |allowed: usize, total: usize| AutonomyRatio { allowed, total };
    assert_eq!(format_ratio_with_icon(&ratio(2, 2), "100.0"), "✅ 2/2 (100.0%)");
    assert_eq!(format_ratio_with_icon(&ratio(1, 2), "50.0"), "🟡 1/2 (50.0%)");
    assert_eq!(format_ratio_with_icon(&ratio(1, 3), "33.3"), "🟠 1/3 (33.3%)");
    assert_eq!(format_ratio_with_icon(&ratio(0, 3), "0.0"), "❌ 0/3 (0.0%)");
}
