use matapan::dashboard::{
    classify_cash_flow, classify_net_worth, is_month_file_name, month_order, month_year, yearly_groups,
    CashFlowClass, DashboardMetadata, NetWorthClass, SettingsCategories,
};

fn cats() -> SettingsCategories {
    SettingsCategories {
        assets: vec!["Cash".to_string(), "investments".to_string(), "retirement".to_string()],
        liabilities: vec!["Loans".to_string(), "cash".to_string()],
        positive_cash_flows: vec!["Salary".to_string()],
        negative_cash_flows: vec!["rent".to_string(), "salary".to_string()],
    }
}

#[test]
fn net_worth_types_take_the_settings_spelling() {
    match classify_net_worth(&cats(), "INVESTMENTS") {
        NetWorthClass::Asset { category } => assert_eq!(category, "investments"),
        _ => panic!("expected an asset"),
    }
    match classify_net_worth(&cats(), "loans") {
        NetWorthClass::Liability { category } => assert_eq!(category, "Loans"),
        _ => panic!("expected a liability"),
    }
}

#[test]
fn liabilities_are_matched_before_assets() {
    match classify_net_worth(&cats(), "CASH") {
        NetWorthClass::Liability { category } => assert_eq!(category, "cash"),
        _ => panic!("expected a liability"),
    }
}

#[test]
fn unknown_types_are_skipped() {
    assert!(matches!(classify_net_worth(&cats(), "boat"), NetWorthClass::Unknown));
    assert!(matches!(classify_net_worth(&cats(), "cash "), NetWorthClass::Unknown));
}

#[test]
fn cash_flows_split_into_income_and_expenses() {
    assert!(matches!(classify_cash_flow(&cats(), "SALARY"), CashFlowClass::Income));
    assert!(matches!(classify_cash_flow(&cats(), "Rent"), CashFlowClass::Expense));
    assert!(matches!(classify_cash_flow(&cats(), "gift"), CashFlowClass::Ignored));
}

#[test]
fn month_files_are_twelve_byte_json_names() {
    assert!(is_month_file_name("2025_09.json"));
    assert!(!is_month_file_name("settings.json"));
    assert!(!is_month_file_name("2025_09.txt"));
    assert!(!is_month_file_name("2025_9.json"));
    assert!(is_month_file_name("é025_9.json"));
}

#[test]
fn months_are_ordered_stably_by_label() {
    let months: Vec<String> = ["2025-03", "2024-12", "2025-01", "2024-12", "2025-01"]
        .iter()
        .map(|s| s.to_string())
        .collect();
    assert_eq!(month_order(&months), vec![1, 3, 2, 4, 0]);
    assert!(month_order(&Vec::new()).is_empty());
}

#[test]
fn years_are_read_from_the_first_four_bytes() {
    assert_eq!(month_year("2025-09"), Some(2025));
    assert_eq!(month_year("+202-09"), Some(202));
    assert_eq!(month_year("abcd-09"), None);
}

#[test]
fn months_group_by_year_in_year_order() {
    let months: Vec<String> = ["2025-01", "2024-11", "2025-02", "xxxx-01", "2024-12"]
        .iter()
        .map(|s| s.to_string())
        .collect();
    let groups = yearly_groups(&months);
    assert_eq!(groups.len(), 2);
    assert_eq!(groups[0].year, 2024);
    assert_eq!(groups[0].members, vec![1, 4]);
    assert_eq!(groups[1].year, 2025);
    assert_eq!(groups[1].members, vec![0, 2]);
}

#[test]
fn metadata_keeps_its_fields() {
    let m = DashboardMetadata::new("2025-01-01T00:00:00+00:00".to_string(), 3);
    assert_eq!(m.generated_at, "2025-01-01T00:00:00+00:00");
    assert_eq!(m.settings_version, 3);
}
