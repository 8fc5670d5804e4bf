use naldom::ir::{CreateArrayParams, Intent, SortArrayParams, WaitParams};
use naldom::semantic_analyzer::{SemanticAnalyzer, Symbol, SymbolTable, SymbolType};

#[test]
fn test_analyze_valid_sequence() {
    // Arrange
    let intent_graph = vec![
        Intent::CreateArray(CreateArrayParams { size: 5 }),
        Intent::SortArray(SortArrayParams {
            order: "ascending".to_string(),
        }),
        Intent::PrintArray,
    ];
    let mut analyzer = SemanticAnalyzer::new();

    // Act
    let result = analyzer.analyze(&intent_graph);

    // Assert
    assert!(result.is_ok());
}

#[test]
fn test_analyze_sort_before_create() {
    // Arrange
    let intent_graph = vec![
        Intent::SortArray(SortArrayParams {
            order: "ascending".to_string(),
        }),
        Intent::CreateArray(CreateArrayParams { size: 5 }),
    ];
    let mut analyzer = SemanticAnalyzer::new();

    // Act
    let result = analyzer.analyze(&intent_graph);

    // Assert
    assert!(result.is_err());
    let error_message = result.unwrap_err();
    assert!(error_message.contains("Attempted to sort, but no array has been created yet."));
}

#[test]
fn test_analyze_print_before_create() {
    // Arrange
    let intent_graph = vec![Intent::PrintArray];
    let mut analyzer = SemanticAnalyzer::new();

    // Act
    let result = analyzer.analyze(&intent_graph);

    // Assert
    assert!(result.is_err());
    let error_message = result.unwrap_err();
    assert!(error_message.contains("Attempted to print, but nothing has been created yet."));
}

#[test]
fn test_analyze_wait_needs_no_subject() {
    let intent_graph = vec![
        Intent::Wait(WaitParams { duration_ms: 250 }),
        Intent::CreateArray(CreateArrayParams { size: 1 }),
        Intent::PrintArray,
    ];
    let mut analyzer = SemanticAnalyzer::new();
    assert!(analyzer.analyze(&intent_graph).is_ok());
}

#[test]
fn test_analyze_returns_sequence_unchanged() {
    let intent_graph = vec![
        Intent::CreateArray(CreateArrayParams { size: 3 }),
        Intent::SortArray(SortArrayParams {
            order: "descending".to_string(),
        }),
    ];
    let mut analyzer = SemanticAnalyzer::new();
    let validated = analyzer.analyze(&intent_graph).expect("Analysis failed");
    assert_eq!(validated.len(), 2);
    match &validated[0] {
        Intent::CreateArray(params) => assert_eq!(params.size, 3),
        _ => panic!("Expected first intent to be CreateArray"),
    }
    match &validated[1] {
        Intent::SortArray(params) => assert_eq!(params.order, "descending"),
        _ => panic!("Expected second intent to be SortArray"),
    }
}

#[test]
fn test_analyze_empty_sequence() {
    let intent_graph: Vec<Intent> = vec![];
    let mut analyzer = SemanticAnalyzer::new();
    assert!(analyzer.analyze(&intent_graph).is_ok());
}

#[test]
fn test_symbol_table_insert_and_get() {
    let mut table = SymbolTable::new();
    assert!(table.get("var_0").is_none());
    table.insert(Symbol {
        name: "var_0".to_string(),
        symbol_type: SymbolType::Array,
    });
    let found = table.get("var_0").expect("Symbol should be present");
    assert_eq!(found.name, "var_0");
    assert_eq!(found.symbol_type, SymbolType::Array);
    assert!(table.get("var_1").is_none());
}
