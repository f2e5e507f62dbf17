use control_flow_graph::text::append_decimal;
use control_flow_graph::{BasicBlock, BlockType, CFGError, JumpType};

fn plain(name: &str) -> BlockType {
    BlockType::Instruction(name.to_string(), None)
}

fn edges(block: &BasicBlock) -> Vec<(usize, usize)> {
    block.edges().copied().collect()
}

fn listing(block: &BasicBlock) -> Vec<(usize, String)> {
    let mut lines: Vec<(usize, String)> = block
        .instructions()
        .map(|(address, instruction)| (*address, instruction.to_string()))
        .collect();
    lines.sort();
    lines
}

#[test]
fn new_block_is_empty() {
    let block = BasicBlock::new(12);
    assert_eq!(block.start(), 12);
    assert_eq!(block.end(), 12);
    assert_eq!(block.instructions().len(), 0);
    assert_eq!(block.edges().len(), 0);
}

#[test]
fn end_follows_increasing_addresses() {
    let mut block = BasicBlock::new(10);
    block.add_instruction(10, plain("A"));
    assert_eq!(block.end(), 10);
    block.add_instruction(13, plain("B"));
    assert_eq!(block.end(), 13);
    block.add_instruction(40, plain("C"));
    assert_eq!(block.end(), 40);
    assert_eq!(block.start(), 10);
    assert_eq!(
        listing(&block),
        vec![(10, "A ".to_string()), (13, "B ".to_string()), (40, "C ".to_string())]
    );
}

#[test]
fn end_is_the_last_address_that_was_new() {
    let mut block = BasicBlock::new(1);
    block.add_instruction(5, plain("A"));
    block.add_instruction(9, plain("B"));
    assert_eq!(block.end(), 9);
    block.add_instruction(3, plain("C"));
    block.add_instruction(5, plain("D"));
    block.add_instruction(9, plain("E"));
    assert_eq!(block.end(), 3);
    assert_eq!(
        listing(&block),
        vec![(3, "C ".to_string()), (5, "A ".to_string()), (9, "B ".to_string())]
    );
}

#[test]
fn known_address_is_neither_overwritten_nor_moves_end() {
    let mut block = BasicBlock::new(1);
    block.add_instruction(2, plain("FIRST"));
    block.add_instruction(3, plain("NEXT"));
    block.add_instruction(2, plain("SECOND"));
    assert_eq!(block.end(), 3);
    assert_eq!(block.instructions().len(), 2);
    assert_eq!(listing(&block), vec![(2, "FIRST ".to_string()), (3, "NEXT ".to_string())]);
}

#[test]
fn same_target_twice_is_one_edge() {
    let mut block = BasicBlock::new(0);
    block.add_edge(4, true);
    assert_eq!(edges(&block), vec![(4, 1)]);
    block.add_edge(4, true);
    assert_eq!(edges(&block), vec![(4, 2)]);
    block.add_edge(4, false);
    assert_eq!(edges(&block), vec![(4, 2)]);
}

#[test]
fn untaken_edge_starts_at_zero() {
    let mut block = BasicBlock::new(0);
    block.add_edge(7, false);
    assert_eq!(edges(&block), vec![(7, 0)]);
    block.add_edge(7, false);
    assert_eq!(edges(&block), vec![(7, 0)]);
    block.add_edge(7, true);
    assert_eq!(edges(&block), vec![(7, 1)]);
}

#[test]
fn edges_keep_the_order_of_first_observation() {
    let mut block = BasicBlock::new(0);
    let observations =
        [(3, true), (1, false), (3, false), (2, true), (1, true), (3, true), (2, true)];
    for (target, traversed) in observations {
        block.add_edge(target, traversed);
    }
    assert_eq!(edges(&block), vec![(3, 2), (1, 1), (2, 2)]);
}

#[test]
fn adding_edges_leaves_instructions_alone() {
    let mut block = BasicBlock::new(5);
    block.add_instruction(6, plain("NOP"));
    block.add_edge(0, true);
    assert_eq!(block.start(), 5);
    assert_eq!(block.end(), 6);
    assert_eq!(listing(&block), vec![(6, "NOP ".to_string())]);
}

#[test]
fn instruction_text() {
    assert_eq!(plain("INC").to_string(), "INC ");
    assert_eq!(
        BlockType::Instruction("LDAC".to_string(), Some("SomeOperand".to_string())).to_string(),
        "LDAC SomeOperand"
    );
    assert_eq!(BlockType::Instruction(String::new(), None).to_string(), " ");
    assert_eq!(
        BlockType::Jump("JMP".to_string(), 9, JumpType::UnconditionalJump, None).to_string(),
        "JMP 9"
    );
    assert_eq!(
        BlockType::Jump("JZ".to_string(), 1234567890, JumpType::ConditionalTaken, Some(6))
            .to_string(),
        "JZ 1234567890"
    );
}

#[test]
fn jump_text_in_decimal() {
    let text = |address: usize| {
        BlockType::Jump("J".to_string(), address, JumpType::ConditionalNotTaken, Some(1))
            .to_string()
    };
    assert_eq!(text(0), "J 0");
    assert_eq!(text(7), "J 7");
    assert_eq!(text(10), "J 10");
    assert_eq!(text(99), "J 99");
    assert_eq!(text(100), "J 100");
    assert_eq!(text(4096), "J 4096");
    assert_eq!(text(usize::MAX), format!("J {}", usize::MAX));
}

#[test]
fn error_text() {
    assert_eq!(
        CFGError::MissingBlock.to_string(),
        "There was an attempt to find a BasicBlock which doesn't exist."
    );
    assert_eq!(
        CFGError::MissingCurrentBlock.to_string(),
        "The current block does not exist inside the BasicBlocks."
    );
    assert_eq!(
        CFGError::ExpectedFailureAddress.to_string(),
        "A failure address was expected for a conditional jump and it was not provided."
    );
}

#[test]
fn jump_kinds_compare_and_copy() {
    let kind = JumpType::ConditionalTaken;
    let copy = kind;
    assert_eq!(kind, copy);
    assert_ne!(JumpType::ConditionalTaken, JumpType::ConditionalNotTaken);
    assert_ne!(JumpType::UnconditionalJump, JumpType::ConditionalTaken);
}

#[test]
fn traversals_of_known_and_unknown_edges() {
    let mut block = BasicBlock::new(0);
    assert_eq!(block.traversals(3), 0);
    block.add_edge(3, false);
    assert_eq!(block.traversals(3), 0);
    block.add_edge(3, true);
    block.add_edge(8, true);
    block.add_edge(3, true);
    assert_eq!(block.traversals(3), 2);
    assert_eq!(block.traversals(8), 1);
    assert_eq!(block.traversals(4), 0);
}

#[test]
fn decimal_is_appended() {
    let mut text = String::from("at ");
    append_decimal(&mut text, 0);
    assert_eq!(text, "at 0");
    append_decimal(&mut text, 42);
    assert_eq!(text, "at 042");
    append_decimal(&mut text, 1000);
    assert_eq!(text, "at 0421000");
}
