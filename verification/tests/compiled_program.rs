use caolc::compiled_program::{CaoCompiledProgram, CardIndex, Label, Trace, VariableId, VERSION_STR};
use caolc::handles::{Handle, HandleTable};
use caolc::instruction::instruction_of;

fn program(bytecode: Vec<u8>) -> CaoCompiledProgram {
    CaoCompiledProgram { bytecode, ..Default::default() }
}

fn float_texts(p: &CaoCompiledProgram) -> Vec<String> {
    p.float_operands().iter().map(|b| format!("{:?}", f64::from_bits(*b))).collect()
}

#[test]
fn label_keeps_its_position() {
    assert_eq!(Label::new(17).pos, 17);
}

#[test]
fn default_program_is_empty() {
    let p = CaoCompiledProgram::default();
    assert!(p.bytecode.is_empty());
    assert!(p.data.is_empty());
    assert!(p.trace.is_empty());
    assert_eq!(p.cao_lang_version, VERSION_STR);
    assert_eq!(p.variable_id("x"), None);
    assert!(p.is_well_formed());
    assert_eq!(p.disassemble_string(&vec![]), "");
}

#[test]
fn handles_are_fnv1a_hashes_of_names() {
    assert_eq!(Handle::from_str(""), Handle(0x811c9dc5));
    assert_eq!(Handle::from_str("a"), Handle(0xe40c292c));
    assert_eq!(Handle::from_str("foobar"), Handle(0xbf9cf968));
}

#[test]
fn variable_id_reads_what_was_stored_under_the_name() {
    let mut p = CaoCompiledProgram::default();
    p.variables.ids.insert(Handle::from_str("result"), VariableId(3));
    p.variables.ids.insert(Handle::from_str("t"), VariableId(4));
    assert_eq!(p.variable_id("result"), Some(VariableId(3)));
    assert_eq!(p.variable_id("t"), Some(VariableId(4)));
    assert_eq!(p.variable_id("missing"), None);
    p.variables.ids.insert(Handle::from_str("result"), VariableId(9));
    assert_eq!(p.variable_id("result"), Some(VariableId(9)));
    assert_eq!(p.variable_id("t"), Some(VariableId(4)));
}

#[test]
fn handle_table_get_and_insert() {
    let mut t: HandleTable<u32> = HandleTable::new();
    assert_eq!(t.get(Handle(1)), None);
    t.insert(Handle(1), 10);
    t.insert(Handle(2), 20);
    t.insert(Handle(1), 11);
    assert_eq!(t.get(Handle(1)), Some(&11));
    assert_eq!(t.get(Handle(2)), Some(&20));
    assert_eq!(t.get(Handle(3)), None);
}

#[test]
fn disassembly_lists_offsets_names_and_operands() {
    let mut code = vec![5u8];
    code.extend_from_slice(&5i64.to_le_bytes()); // ScalarInt 5
    code.push(6);
    code.extend_from_slice(&1.5f64.to_bits().to_le_bytes()); // ScalarFloat 1.5
    code.push(30);
    code.extend_from_slice(&(-1i32).to_le_bytes()); // Goto -1
    code.push(0); // Add
    code.push(10); // Exit
    let p = program(code);
    assert!(p.is_well_formed());
    assert_eq!(p.float_operands(), vec![1.5f64.to_bits()]);
    let text = p.disassemble_string(&float_texts(&p));
    assert_eq!(
        text,
        "0\tScalarInt\tvalue=5\n9\tScalarFloat\tvalue=1.5\n18\tGoto\tpos=-1\n23\tAdd\n24\tExit\n"
    );
}

#[test]
fn disassembly_of_handles_variables_and_loops() {
    let mut code = vec![37u8]; // FunctionPointer: handle, then arity
    code.extend_from_slice(&7u32.to_le_bytes());
    code.extend_from_slice(&2u32.to_le_bytes());
    code.push(17); // SetGlobalVar
    code.extend_from_slice(&3u32.to_le_bytes());
    code.push(20); // ReadLocalVar
    code.extend_from_slice(&1u32.to_le_bytes());
    code.push(45); // RegisterUpvalue
    code.extend_from_slice(&[4, 1]);
    code.push(35); // BeginForEach
    for v in [1u32, 2, 3, 4, 5] {
        code.extend_from_slice(&v.to_le_bytes());
    }
    code.push(8); // StringLiteral
    code.extend_from_slice(&0xe40c292cu32.to_le_bytes());
    let p = program(code);
    assert!(p.is_well_formed());
    assert_eq!(
        p.disassemble_string(&vec![]),
        "0\tFunctionPointer\thandle=Handle(7)\tarity=7\n\
         9\tSetGlobalVar\tid=VariableId(3)\n\
         14\tReadLocalVar\tindex=VariableId(1)\n\
         19\tRegisterUpvalue\tindex=4\tis_local=1\n\
         22\tBeginForEach\tloop_var=1\tloop_item=2\ti_index=3\tk_index=4\tv_index=5\n\
         43\tStringLiteral\thandle=Handle(3826002220)\n"
    );
}

#[test]
fn malformed_bytecode_is_detected() {
    assert!(!program(vec![200]).is_well_formed()); // unknown opcode
    assert!(!program(vec![30, 1, 2]).is_well_formed()); // Goto missing operand bytes
    assert!(program(vec![30, 1, 0, 0, 0]).is_well_formed());
    assert!(!program(vec![47]).is_well_formed());
    assert!(program(vec![46]).is_well_formed()); // CloseUpvalue
}

#[test]
fn trace_is_shown_as_a_dotted_path() {
    let t = Trace {
        namespace: vec!["std".to_string(), "math".to_string()],
        index: CardIndex { function: 3, indices: vec![1, 20] },
    };
    assert_eq!(t.to_display_string(), "std.math.3.1.20");
    let bare = Trace { namespace: vec![], index: CardIndex { function: 0, indices: vec![] } };
    assert_eq!(bare.to_display_string(), "0");
}

#[test]
fn every_opcode_has_a_name_of_its_own() {
    let names: Vec<&str> = (0u8..=255).filter_map(instruction_of).map(|i| i.name()).collect();
    assert_eq!(names.len(), 47);
    let distinct: std::collections::HashSet<&str> = names.iter().copied().collect();
    assert_eq!(distinct.len(), 47);
    assert_eq!(instruction_of(0).map(|i| i.name()), Some("Add"));
    assert_eq!(instruction_of(46).map(|i| i.name()), Some("CloseUpvalue"));
}
