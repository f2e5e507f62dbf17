use control_flow_graph::{BasicBlock, BlockType, CFGError, ControlFlowGraph, JumpType};

fn plain(name: &str) -> BlockType {
    BlockType::Instruction(name.to_string(), None)
}

fn with_operand(name: &str, operand: &str) -> BlockType {
    BlockType::Instruction(name.to_string(), Some(operand.to_string()))
}

fn jump(success: usize, kind: JumpType, failure: Option<usize>) -> BlockType {
    BlockType::Jump("JMP".to_string(), success, kind, failure)
}

fn edges_of(graph: &ControlFlowGraph, index: usize) -> Vec<(usize, usize)> {
    graph.blocks().nth(index).unwrap().edges().copied().collect()
}

fn starts_of(graph: &ControlFlowGraph) -> Vec<usize> {
    graph.blocks().map(|block| block.start()).collect()
}

fn ends_of(graph: &ControlFlowGraph) -> Vec<usize> {
    graph.blocks().map(|block| block.end()).collect()
}

fn addresses_of(block: &BasicBlock) -> Vec<usize> {
    let mut addresses: Vec<usize> = block.instructions().map(|(address, _)| *address).collect();
    addresses.sort();
    addresses
}

#[test]
fn unconditional_jump() -> Result<(), CFGError> {
    let mut cfg = ControlFlowGraph::new(2);
    cfg.execute(3, BlockType::Instruction("INC".to_string(), None))?;
    cfg.execute(4, BlockType::Instruction("LDAC".to_string(), Some("SomeOperand".to_string())))?;
    cfg.execute(5, BlockType::Jump("JMP".to_string(), 9, JumpType::UnconditionalJump, None))?;
    cfg.execute(10, BlockType::Instruction("INC".to_string(), None))?;
    assert_eq!(2, cfg.blocks().len());
    assert_eq!(1, cfg.blocks().nth(0).unwrap().edges().len());

    Ok(())
}

#[test]
fn conditional_jump() -> Result<(), CFGError> {
    let mut cfg = ControlFlowGraph::new(2);
    cfg.execute(3, BlockType::Instruction("INC".to_string(), None))?;
    cfg.execute(4, BlockType::Instruction("LDAC".to_string(), Some("SomeOperand".to_string())))?;
    cfg.execute(5, BlockType::Jump("JMP".to_string(), 9, JumpType::ConditionalTaken, Some(6)))?;
    cfg.execute(10, BlockType::Instruction("INC".to_string(), None))?;
    assert_eq!(3, cfg.blocks().len());
    assert_eq!(1, cfg.blocks().nth(0).unwrap().edges().nth(1).unwrap().1);
    assert_eq!(0, cfg.blocks().nth(0).unwrap().edges().nth(0).unwrap().1);

    Ok(())
}

#[test]
fn new_graph_has_one_empty_block_under_the_cursor() {
    let cfg = ControlFlowGraph::new(7);
    assert_eq!(cfg.blocks().len(), 1);
    assert_eq!(cfg.current_block(), 0);
    let block = cfg.blocks().next().unwrap();
    assert_eq!(block.start(), 7);
    assert_eq!(block.end(), 7);
    assert_eq!(block.instructions().count(), 0);
    assert_eq!(block.edges().count(), 0);
}

#[test]
fn unconditional_jump_links_and_moves() {
    let mut cfg = ControlFlowGraph::new(2);
    assert_eq!(cfg.execute(3, plain("INC")), Ok(()));
    assert_eq!(cfg.execute(4, with_operand("LDAC", "Op")), Ok(()));
    assert_eq!(cfg.execute(5, jump(9, JumpType::UnconditionalJump, None)), Ok(()));
    assert_eq!(cfg.current_block(), 1);
    assert_eq!(cfg.execute(10, plain("INC")), Ok(()));
    assert_eq!(cfg.blocks().len(), 2);
    assert_eq!(starts_of(&cfg), vec![2, 9]);
    assert_eq!(ends_of(&cfg), vec![5, 10]);
    assert_eq!(edges_of(&cfg, 0), vec![(1, 1)]);
    assert_eq!(edges_of(&cfg, 1), vec![]);
    assert_eq!(cfg.current_block(), 1);
    assert_eq!(addresses_of(cfg.blocks().nth(0).unwrap()), vec![3, 4, 5]);
    assert_eq!(addresses_of(cfg.blocks().nth(1).unwrap()), vec![10]);
}

#[test]
fn unconditional_jump_ignores_a_failure_address() {
    let mut cfg = ControlFlowGraph::new(2);
    assert_eq!(cfg.execute(5, jump(9, JumpType::UnconditionalJump, Some(6))), Ok(()));
    assert_eq!(starts_of(&cfg), vec![2, 9]);
    assert_eq!(edges_of(&cfg, 0), vec![(1, 1)]);
    assert_eq!(cfg.current_block(), 1);
}

#[test]
fn conditional_taken_counts_the_success_edge() {
    let mut cfg = ControlFlowGraph::new(2);
    assert_eq!(cfg.execute(3, plain("INC")), Ok(()));
    assert_eq!(cfg.execute(4, with_operand("LDAC", "Op")), Ok(()));
    assert_eq!(cfg.execute(5, jump(9, JumpType::ConditionalTaken, Some(6))), Ok(()));
    assert_eq!(cfg.blocks().len(), 3);
    assert_eq!(starts_of(&cfg), vec![2, 6, 9]);
    assert_eq!(edges_of(&cfg, 0), vec![(1, 0), (2, 1)]);
    assert_eq!(cfg.current_block(), 2);
    assert_eq!(cfg.blocks().nth(cfg.current_block()).unwrap().start(), 9);
}

#[test]
fn conditional_not_taken_counts_the_failure_edge() {
    let mut cfg = ControlFlowGraph::new(2);
    assert_eq!(cfg.execute(3, plain("INC")), Ok(()));
    assert_eq!(cfg.execute(4, with_operand("LDAC", "Op")), Ok(()));
    assert_eq!(cfg.execute(5, jump(9, JumpType::ConditionalNotTaken, Some(6))), Ok(()));
    assert_eq!(cfg.blocks().len(), 3);
    assert_eq!(starts_of(&cfg), vec![2, 6, 9]);
    assert_eq!(edges_of(&cfg, 0), vec![(1, 1), (2, 0)]);
    assert_eq!(cfg.current_block(), 1);
    assert_eq!(cfg.blocks().nth(cfg.current_block()).unwrap().start(), 6);
}

#[test]
fn conditional_taken_without_failure_address_is_refused() {
    let mut cfg = ControlFlowGraph::new(2);
    assert_eq!(cfg.execute(3, plain("INC")), Ok(()));
    assert_eq!(
        cfg.execute(5, jump(9, JumpType::ConditionalTaken, None)),
        Err(CFGError::ExpectedFailureAddress)
    );
    assert_eq!(cfg.blocks().len(), 1);
    assert_eq!(cfg.current_block(), 0);
    assert_eq!(edges_of(&cfg, 0), vec![]);
    assert_eq!(addresses_of(cfg.blocks().next().unwrap()), vec![3, 5]);
    assert_eq!(ends_of(&cfg), vec![5]);
}

#[test]
fn conditional_not_taken_without_failure_address_is_refused() {
    let mut cfg = ControlFlowGraph::new(2);
    assert_eq!(
        cfg.execute(5, jump(9, JumpType::ConditionalNotTaken, None)),
        Err(CFGError::ExpectedFailureAddress)
    );
    assert_eq!(cfg.blocks().len(), 1);
    assert_eq!(cfg.current_block(), 0);
    assert_eq!(edges_of(&cfg, 0), vec![]);
    assert_eq!(addresses_of(cfg.blocks().next().unwrap()), vec![5]);
}

#[test]
fn refused_jump_fed_again_changes_nothing() {
    let mut cfg = ControlFlowGraph::new(2);
    assert!(cfg.execute(5, jump(9, JumpType::ConditionalTaken, None)).is_err());
    assert_eq!(
        cfg.execute(5, jump(9, JumpType::ConditionalTaken, None)),
        Err(CFGError::ExpectedFailureAddress)
    );
    assert_eq!(cfg.blocks().len(), 1);
    assert_eq!(ends_of(&cfg), vec![5]);
    assert_eq!(addresses_of(cfg.blocks().next().unwrap()), vec![5]);
    assert_eq!(edges_of(&cfg, 0), vec![]);
}

#[test]
fn equal_success_and_failure_address_give_one_edge() {
    let mut cfg = ControlFlowGraph::new(2);
    assert_eq!(cfg.execute(5, jump(9, JumpType::ConditionalTaken, Some(9))), Ok(()));
    assert_eq!(starts_of(&cfg), vec![2, 9]);
    assert_eq!(edges_of(&cfg, 0), vec![(1, 1)]);
    assert_eq!(cfg.current_block(), 1);

    let mut cfg = ControlFlowGraph::new(2);
    assert_eq!(cfg.execute(5, jump(9, JumpType::ConditionalNotTaken, Some(9))), Ok(()));
    assert_eq!(starts_of(&cfg), vec![2, 9]);
    assert_eq!(edges_of(&cfg, 0), vec![(1, 1)]);
    assert_eq!(cfg.current_block(), 1);
}

#[test]
fn jump_to_a_known_start_reuses_the_block() {
    let mut cfg = ControlFlowGraph::new(2);
    assert_eq!(cfg.execute(3, plain("INC")), Ok(()));
    assert_eq!(cfg.execute(4, jump(2, JumpType::UnconditionalJump, None)), Ok(()));
    assert_eq!(cfg.blocks().len(), 1);
    assert_eq!(cfg.current_block(), 0);
    assert_eq!(edges_of(&cfg, 0), vec![(0, 1)]);
}

#[test]
fn a_loop_accumulates_traversals() {
    let mut cfg = ControlFlowGraph::new(0);
    for _ in 0..3 {
        assert_eq!(cfg.execute(1, plain("DEC")), Ok(()));
        assert_eq!(cfg.execute(2, jump(0, JumpType::ConditionalTaken, Some(3))), Ok(()));
    }
    assert_eq!(cfg.execute(1, plain("DEC")), Ok(()));
    assert_eq!(cfg.execute(2, jump(0, JumpType::ConditionalNotTaken, Some(3))), Ok(()));
    assert_eq!(cfg.execute(3, plain("HLT")), Ok(()));
    assert_eq!(starts_of(&cfg), vec![0, 3]);
    assert_eq!(edges_of(&cfg, 0), vec![(1, 1), (0, 3)]);
    assert_eq!(cfg.current_block(), 1);
    assert_eq!(addresses_of(cfg.blocks().nth(0).unwrap()), vec![1, 2]);
    assert_eq!(addresses_of(cfg.blocks().nth(1).unwrap()), vec![3]);
    assert_eq!(ends_of(&cfg), vec![2, 3]);
}

#[test]
fn plain_instruction_fed_again_changes_nothing() {
    let mut cfg = ControlFlowGraph::new(2);
    assert_eq!(cfg.execute(3, plain("INC")), Ok(()));
    assert_eq!(cfg.execute(4, with_operand("LDAC", "Op")), Ok(()));
    assert_eq!(cfg.execute(3, plain("INC")), Ok(()));
    assert_eq!(cfg.blocks().len(), 1);
    assert_eq!(cfg.current_block(), 0);
    assert_eq!(ends_of(&cfg), vec![4]);
    assert_eq!(addresses_of(cfg.blocks().next().unwrap()), vec![3, 4]);
    assert_eq!(edges_of(&cfg, 0), vec![]);
}

#[test]
fn jump_fed_again_from_its_block_counts_once_more() {
    let mut cfg = ControlFlowGraph::new(2);
    assert_eq!(cfg.execute(3, plain("INC")), Ok(()));
    assert_eq!(cfg.execute(4, jump(2, JumpType::ConditionalTaken, Some(5))), Ok(()));
    assert_eq!(starts_of(&cfg), vec![2, 5]);
    assert_eq!(edges_of(&cfg, 0), vec![(1, 0), (0, 1)]);
    assert_eq!(cfg.execute(4, jump(2, JumpType::ConditionalTaken, Some(5))), Ok(()));
    assert_eq!(starts_of(&cfg), vec![2, 5]);
    assert_eq!(ends_of(&cfg), vec![4, 5]);
    assert_eq!(addresses_of(cfg.blocks().nth(0).unwrap()), vec![3, 4]);
    assert_eq!(addresses_of(cfg.blocks().nth(1).unwrap()), vec![]);
    assert_eq!(edges_of(&cfg, 0), vec![(1, 0), (0, 2)]);
    assert_eq!(cfg.current_block(), 0);
}

#[test]
fn cursor_block_starts_where_the_run_goes_on() {
    let mut cfg = ControlFlowGraph::new(2);
    assert_eq!(cfg.execute(3, plain("INC")), Ok(()));
    assert!(cfg.blocks().nth(cfg.current_block()).unwrap().start() <= 4);
    assert_eq!(cfg.execute(4, jump(20, JumpType::ConditionalNotTaken, Some(5))), Ok(()));
    assert_eq!(cfg.blocks().nth(cfg.current_block()).unwrap().start(), 5);
    assert_eq!(cfg.execute(5, jump(20, JumpType::ConditionalTaken, Some(6))), Ok(()));
    assert_eq!(cfg.blocks().nth(cfg.current_block()).unwrap().start(), 20);
    assert_eq!(cfg.execute(20, jump(2, JumpType::UnconditionalJump, None)), Ok(()));
    assert_eq!(cfg.blocks().nth(cfg.current_block()).unwrap().start(), 2);
    assert_eq!(starts_of(&cfg), vec![2, 5, 20, 6]);
    assert_eq!(edges_of(&cfg, 0), vec![(1, 1), (2, 0)]);
    assert_eq!(edges_of(&cfg, 1), vec![(3, 0), (2, 1)]);
    assert_eq!(edges_of(&cfg, 2), vec![(0, 1)]);
    assert_eq!(edges_of(&cfg, 3), vec![]);
}

#[test]
fn recorded_instructions_can_be_read_back() {
    let mut cfg = ControlFlowGraph::new(2);
    assert_eq!(cfg.execute(3, plain("INC")), Ok(()));
    assert_eq!(cfg.execute(4, with_operand("LDAC", "Op")), Ok(()));
    assert_eq!(cfg.execute(5, jump(9, JumpType::ConditionalTaken, Some(6))), Ok(()));
    let block = cfg.blocks().next().unwrap();
    let mut seen: Vec<(usize, String)> = block
        .instructions()
        .map(|(address, instruction)| (*address, instruction.to_string()))
        .collect();
    seen.sort();
    assert_eq!(
        seen,
        vec![(3, "INC ".to_string()), (4, "LDAC Op".to_string()), (5, "JMP 9".to_string())]
    );
    match block.instructions().find(|(address, _)| **address == 5).unwrap().1 {
        BlockType::Jump(name, success, kind, failure) => {
            assert_eq!(name, "JMP");
            assert_eq!(*success, 9);
            assert_eq!(*kind, JumpType::ConditionalTaken);
            assert_eq!(*failure, Some(6));
        }
        BlockType::Instruction(_, _) => panic!("a jump was recorded at 5"),
    }
}

#[test]
fn accepts_tells_what_can_be_fed() {
    let mut cfg = ControlFlowGraph::new(5);
    assert!(cfg.accepts(5, &plain("NOP")));
    assert!(cfg.accepts(900, &plain("NOP")));
    assert!(!cfg.accepts(4, &plain("NOP")));
    assert!(!cfg.accepts(0, &jump(9, JumpType::UnconditionalJump, None)));
    assert!(cfg.accepts(5, &jump(9, JumpType::UnconditionalJump, None)));
    assert!(cfg.accepts(5, &jump(9, JumpType::ConditionalTaken, Some(6))));
    assert!(cfg.accepts(5, &jump(9, JumpType::ConditionalTaken, Some(9))));
    assert!(cfg.accepts(5, &jump(9, JumpType::ConditionalNotTaken, Some(6))));
    assert!(cfg.accepts(5, &jump(9, JumpType::ConditionalTaken, None)));
    assert!(!cfg.accepts(4, &jump(9, JumpType::ConditionalTaken, None)));
    assert_eq!(cfg.execute(6, jump(20, JumpType::UnconditionalJump, None)), Ok(()));
    assert!(!cfg.accepts(19, &plain("NOP")));
    assert!(cfg.accepts(20, &jump(5, JumpType::ConditionalTaken, Some(21))));
    assert_eq!(cfg.blocks().len(), 2);
    assert_eq!(cfg.current_block(), 1);
}

#[test]
fn traversals_can_be_looked_up_by_target() {
    let mut cfg = ControlFlowGraph::new(0);
    assert_eq!(cfg.execute(1, jump(0, JumpType::ConditionalTaken, Some(2))), Ok(()));
    assert_eq!(cfg.execute(1, jump(0, JumpType::ConditionalTaken, Some(2))), Ok(()));
    let block = cfg.blocks().next().unwrap();
    assert_eq!(block.traversals(0), 2);
    assert_eq!(block.traversals(1), 0);
    assert_eq!(block.traversals(2), 0);
    assert_eq!(edges_of(&cfg, 0), vec![(1, 0), (0, 2)]);
}
