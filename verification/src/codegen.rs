//! Generation of abstract assembly from the intermediate representation:
//! an instruction-by-instruction translation, a sweep that assigns each
//! pseudo operand a stack slot in first-occurrence order, and a legalization
//! sweep that splits memory-to-memory moves through a scratch register.

use vstd::prelude::*;

use crate::ast_nodes::asm_nodes::{
    AsmFunctionDefinition, AsmIdentifier, AsmInstruction, AsmInstructionView, AsmOperand,
    AsmOperandView, AsmProgram, AsmProgramView, AsmReg, AsmUnaryOperator,
};
use crate::ast_nodes::tacky_nodes::{
    TackyFunctionDefinition, TackyIdentifier, TackyInstruction, TackyInstructionView,
    TackyOperand, TackyOperandView, TackyProgram, TackyProgramView, TackyUnaryOperator,
};

verus! {

/// The assembly operator for an intermediate-representation operator.
pub open spec fn asm_unary_operator(op: TackyUnaryOperator) -> AsmUnaryOperator {
    match op {
        TackyUnaryOperator::Complement => AsmUnaryOperator::Not,
        TackyUnaryOperator::Negate => AsmUnaryOperator::Neg,
    }
}

/// The assembly operand for an intermediate-representation value: constants
/// become immediates, variables become pseudo operands of the same name.
pub open spec fn asm_operand_of(v: TackyOperandView) -> AsmOperandView {
    match v {
        TackyOperandView::Constant(n) => AsmOperandView::Imm(n),
        TackyOperandView::Variable(name) => AsmOperandView::Pseudo(name),
    }
}

/// The expansion of one intermediate-representation instruction.
pub open spec fn translate_instruction(i: TackyInstructionView) -> Seq<AsmInstructionView> {
    match i {
        TackyInstructionView::Return(v) => seq![
            AsmInstructionView::Mov(asm_operand_of(v), AsmOperandView::Register(AsmReg::AX)),
            AsmInstructionView::Ret,
        ],
        TackyInstructionView::Unary(op, src, dst) => seq![
            AsmInstructionView::Mov(asm_operand_of(src), asm_operand_of(dst)),
            AsmInstructionView::Unary(asm_unary_operator(op), asm_operand_of(dst)),
        ],
    }
}

/// The expansion of a whole instruction list, in order.
pub open spec fn translate_body(body: Seq<TackyInstructionView>) -> Seq<AsmInstructionView>
    decreases body.len(),
{
    if body.len() == 0 {
        Seq::<AsmInstructionView>::empty()
    } else {
        translate_body(body.drop_last()) + translate_instruction(body.last())
    }
}

/// The position of the first occurrence of `name` in `names` (the length of
/// `names` if it does not occur).
pub open spec fn first_index(names: Seq<Seq<char>>, name: Seq<char>) -> int
    decreases names.len(),
{
    if names.len() == 0 {
        0
    } else if names[0] == name {
        0
    } else {
        1 + first_index(names.drop_first(), name)
    }
}

/// Whether `name` occurs in `names`.
pub open spec fn contains_name(names: Seq<Seq<char>>, name: Seq<char>) -> bool {
    exists|j: int| 0 <= j < names.len() && names[j] == name
}

/// One step of the pseudo-to-stack sweep on an operand: a pseudo operand is
/// recorded (if new) and rewritten to the stack slot of its name; every
/// other operand is left alone, as is the record.
pub open spec fn rewrite_operand(names: Seq<Seq<char>>, op: AsmOperandView) -> (Seq<Seq<char>>,
    AsmOperandView) {
    match op {
        AsmOperandView::Pseudo(name) => {
            let recorded = if contains_name(names, name) {
                names
            } else {
                names.push(name)
            };
            (recorded, AsmOperandView::Stack(first_index(recorded, name) as u32))
        },
        _ => (names, op),
    }
}

/// One step of the pseudo-to-stack sweep on an instruction; the operands of
/// a `Mov` are visited source first.
pub open spec fn rewrite_instruction(names: Seq<Seq<char>>, i: AsmInstructionView) -> (Seq<
    Seq<char>,
>, AsmInstructionView) {
    match i {
        AsmInstructionView::Mov(src, dst) => {
            let (names1, src2) = rewrite_operand(names, src);
            let (names2, dst2) = rewrite_operand(names1, dst);
            (names2, AsmInstructionView::Mov(src2, dst2))
        },
        AsmInstructionView::Unary(op, dst) => {
            let (names1, dst2) = rewrite_operand(names, dst);
            (names1, AsmInstructionView::Unary(op, dst2))
        },
        _ => (names, i),
    }
}

/// The pseudo-to-stack sweep over an instruction list, carrying the record
/// of names seen so far in first-occurrence order.
pub open spec fn rewrite_body(names: Seq<Seq<char>>, body: Seq<AsmInstructionView>) -> (Seq<
    Seq<char>,
>, Seq<AsmInstructionView>)
    decreases body.len(),
{
    if body.len() == 0 {
        (names, Seq::<AsmInstructionView>::empty())
    } else {
        let (names1, prefix) = rewrite_body(names, body.drop_last());
        let (names2, last) = rewrite_instruction(names1, body.last());
        (names2, prefix.push(last))
    }
}

/// The whole pseudo-to-stack pass: rewrite every operand, then put an
/// `AllocateStack` for the number of distinct names at the head.
pub open spec fn allocate_stack_pass(body: Seq<AsmInstructionView>) -> Seq<AsmInstructionView> {
    let (names, rewritten) = rewrite_body(Seq::<Seq<char>>::empty(), body);
    seq![AsmInstructionView::AllocateStack(names.len() as u32)] + rewritten
}

/// The legalization of one instruction: a memory-to-memory `Mov` goes
/// through the scratch register `R10`; everything else stands.
pub open spec fn legalize_instruction(i: AsmInstructionView) -> Seq<AsmInstructionView> {
    match i {
        AsmInstructionView::Mov(
            AsmOperandView::Stack(a),
            AsmOperandView::Stack(b),
        ) => seq![
            AsmInstructionView::Mov(
                AsmOperandView::Stack(a),
                AsmOperandView::Register(AsmReg::R10),
            ),
            AsmInstructionView::Mov(
                AsmOperandView::Register(AsmReg::R10),
                AsmOperandView::Stack(b),
            ),
        ],
        _ => seq![i],
    }
}

/// The legalization sweep over an instruction list.
pub open spec fn legalize_body(body: Seq<AsmInstructionView>) -> Seq<AsmInstructionView>
    decreases body.len(),
{
    if body.len() == 0 {
        Seq::<AsmInstructionView>::empty()
    } else {
        legalize_body(body.drop_last()) + legalize_instruction(body.last())
    }
}

/// The abstract assembly generated for an intermediate-representation
/// program: translation, then the pseudo-to-stack pass, then legalization.
pub open spec fn asm_program_of(t: TackyProgramView) -> AsmProgramView {
    AsmProgramView {
        name: t.name,
        body: legalize_body(allocate_stack_pass(translate_body(t.body))),
    }
}

/// The record of stack-slot names, as a sequence of character strings.
pub open spec fn names_view(names: Seq<String>) -> Seq<Seq<char>> {
    names.map_values(|s: String| s@)
}

/// Whether an instruction still holds a pseudo operand.
pub open spec fn instruction_has_pseudo(i: AsmInstructionView) -> bool {
    match i {
        AsmInstructionView::Mov(src, dst) => src is Pseudo || dst is Pseudo,
        AsmInstructionView::Unary(_, dst) => dst is Pseudo,
        _ => false,
    }
}

/// Whether no instruction of the list holds a pseudo operand.
pub open spec fn body_has_no_pseudo(body: Seq<AsmInstructionView>) -> bool {
    forall|k: int| 0 <= k < body.len() ==> !instruction_has_pseudo(#[trigger] body[k])
}

/// Whether an instruction is a `Mov` with both operands on the stack,
/// which the target architecture does not permit.
pub open spec fn is_memory_to_memory_mov(i: AsmInstructionView) -> bool {
    match i {
        AsmInstructionView::Mov(AsmOperandView::Stack(_), AsmOperandView::Stack(_)) => true,
        _ => false,
    }
}

/// Whether no instruction of the list is a memory-to-memory `Mov`.
pub open spec fn body_has_no_memory_mov(body: Seq<AsmInstructionView>) -> bool {
    forall|k: int| 0 <= k < body.len() ==> !is_memory_to_memory_mov(#[trigger] body[k])
}

/// The variable names an intermediate-representation operand mentions.
pub open spec fn operand_variables(v: TackyOperandView) -> Set<Seq<char>> {
    match v {
        TackyOperandView::Constant(_) => Set::<Seq<char>>::empty(),
        TackyOperandView::Variable(name) => Set::<Seq<char>>::empty().insert(name),
    }
}

/// The variable names an intermediate-representation instruction mentions.
pub open spec fn instruction_variables(i: TackyInstructionView) -> Set<Seq<char>> {
    match i {
        TackyInstructionView::Return(v) => operand_variables(v),
        TackyInstructionView::Unary(_, src, dst) => operand_variables(src).union(
            operand_variables(dst),
        ),
    }
}

/// The set of distinct variable names of an instruction list.
pub open spec fn body_variables(body: Seq<TackyInstructionView>) -> Set<Seq<char>>
    decreases body.len(),
{
    if body.len() == 0 {
        Set::<Seq<char>>::empty()
    } else {
        body_variables(body.drop_last()).union(instruction_variables(body.last()))
    }
}

/// The pseudo names an assembly operand mentions.
pub open spec fn operand_pseudo_names(op: AsmOperandView) -> Set<Seq<char>> {
    match op {
        AsmOperandView::Pseudo(name) => Set::<Seq<char>>::empty().insert(name),
        _ => Set::<Seq<char>>::empty(),
    }
}

/// The pseudo names an assembly instruction mentions.
pub open spec fn instruction_pseudo_names(i: AsmInstructionView) -> Set<Seq<char>> {
    match i {
        AsmInstructionView::Mov(src, dst) => operand_pseudo_names(src).union(
            operand_pseudo_names(dst),
        ),
        AsmInstructionView::Unary(_, dst) => operand_pseudo_names(dst),
        _ => Set::<Seq<char>>::empty(),
    }
}

/// The set of distinct pseudo names of an assembly instruction list.
pub open spec fn body_pseudo_names(body: Seq<AsmInstructionView>) -> Set<Seq<char>>
    decreases body.len(),
{
    if body.len() == 0 {
        Set::<Seq<char>>::empty()
    } else {
        body_pseudo_names(body.drop_last()).union(instruction_pseudo_names(body.last()))
    }
}

/// Translation invents no pseudo names of its own: the pseudo names of the
/// translated body are exactly the variable names of the source body.
pub proof fn lemma_translate_body_pseudo_names(body: Seq<TackyInstructionView>)
    ensures
        body_pseudo_names(translate_body(body)) == body_variables(body),
    decreases body.len(),
{
    if body.len() > 0 {
        lemma_translate_body_pseudo_names(body.drop_last());
        lemma_body_pseudo_names_concat(
            translate_body(body.drop_last()),
            translate_instruction(body.last()),
        );
        lemma_translate_instruction_pseudo_names(body.last());
        assert(body_pseudo_names(translate_body(body)) =~= body_variables(body));
    } else {
        assert(body_pseudo_names(translate_body(body)) =~= body_variables(body));
    }
}

/// The pseudo names of one translated instruction are the variable names of
/// the source instruction.
proof fn lemma_translate_instruction_pseudo_names(i: TackyInstructionView)
    ensures
        body_pseudo_names(translate_instruction(i)) == instruction_variables(i),
{
    let t = translate_instruction(i);
    assert(t.len() == 2);
    assert(t.drop_last() =~= seq![t[0]]);
    assert(seq![t[0]].drop_last() =~= Seq::<AsmInstructionView>::empty());
    assert(body_pseudo_names(Seq::<AsmInstructionView>::empty()) =~= Set::<Seq<char>>::empty());
    assert(seq![t[0]].last() == t[0]);
    assert(body_pseudo_names(seq![t[0]]) =~= instruction_pseudo_names(t[0]));
    assert(body_pseudo_names(t) =~= instruction_pseudo_names(t[0]).union(
        instruction_pseudo_names(t[1]),
    ));
    match i {
        TackyInstructionView::Return(v) => {
            lemma_asm_operand_pseudo_names(v);
            assert(body_pseudo_names(t) =~= instruction_variables(i));
        },
        TackyInstructionView::Unary(_, src, dst) => {
            lemma_asm_operand_pseudo_names(src);
            lemma_asm_operand_pseudo_names(dst);
            assert(body_pseudo_names(t) =~= instruction_variables(i));
        },
    }
}

/// The pseudo names of a translated operand are the variable names of the
/// source operand.
proof fn lemma_asm_operand_pseudo_names(v: TackyOperandView)
    ensures
        operand_pseudo_names(asm_operand_of(v)) == operand_variables(v),
{
    match v {
        TackyOperandView::Constant(_) => {
            assert(operand_pseudo_names(asm_operand_of(v)) =~= operand_variables(v));
        },
        TackyOperandView::Variable(_) => {
            assert(operand_pseudo_names(asm_operand_of(v)) =~= operand_variables(v));
        },
    }
}

/// Distinct-name sets distribute over concatenation of instruction lists.
pub proof fn lemma_body_pseudo_names_concat(a: Seq<AsmInstructionView>, b: Seq<
    AsmInstructionView,
>)
    ensures
        body_pseudo_names(a + b) == body_pseudo_names(a).union(body_pseudo_names(b)),
    decreases b.len(),
{
    if b.len() == 0 {
        assert(a + b =~= a);
        assert(body_pseudo_names(a).union(body_pseudo_names(b)) =~= body_pseudo_names(a));
    } else {
        lemma_body_pseudo_names_concat(a, b.drop_last());
        assert((a + b).drop_last() =~= a + b.drop_last());
        assert((a + b).last() == b.last());
        assert(body_pseudo_names(a + b) =~= body_pseudo_names(a).union(body_pseudo_names(b)));
    }
}

/// The rewrite of an operand never returns a pseudo operand, and it records
/// exactly the pseudo names it meets, without introducing duplicates.
pub proof fn lemma_rewrite_operand_names(names: Seq<Seq<char>>, op: AsmOperandView)
    ensures
        !(rewrite_operand(names, op).1 is Pseudo),
        rewrite_operand(names, op).0.to_set() == names.to_set().union(operand_pseudo_names(op)),
        names.no_duplicates() ==> rewrite_operand(names, op).0.no_duplicates(),
{
    broadcast use vstd::seq_lib::group_seq_properties;

    match op {
        AsmOperandView::Pseudo(name) => {
            if contains_name(names, name) {
                assert(names.contains(name));
                assert(rewrite_operand(names, op).0.to_set() =~= names.to_set().union(
                    operand_pseudo_names(op),
                ));
            } else {
                assert(!names.contains(name));
                Seq::lemma_push_to_set_commute(names, name);
                assert(rewrite_operand(names, op).0.to_set() =~= names.to_set().union(
                    operand_pseudo_names(op),
                ));
            }
        },
        _ => {
            assert(rewrite_operand(names, op).0.to_set() =~= names.to_set().union(
                operand_pseudo_names(op),
            ));
        },
    }
}

/// The rewrite of an instruction never returns a pseudo operand, and it
/// records exactly the pseudo names the instruction mentions.
pub proof fn lemma_rewrite_instruction_names(names: Seq<Seq<char>>, i: AsmInstructionView)
    ensures
        !instruction_has_pseudo(rewrite_instruction(names, i).1),
        rewrite_instruction(names, i).0.to_set() == names.to_set().union(
            instruction_pseudo_names(i),
        ),
        names.no_duplicates() ==> rewrite_instruction(names, i).0.no_duplicates(),
{
    match i {
        AsmInstructionView::Mov(src, dst) => {
            let (names1, _) = rewrite_operand(names, src);
            lemma_rewrite_operand_names(names, src);
            lemma_rewrite_operand_names(names1, dst);
            assert(rewrite_instruction(names, i).0.to_set() =~= names.to_set().union(
                instruction_pseudo_names(i),
            ));
        },
        AsmInstructionView::Unary(_, dst) => {
            lemma_rewrite_operand_names(names, dst);
            assert(rewrite_instruction(names, i).0.to_set() =~= names.to_set().union(
                instruction_pseudo_names(i),
            ));
        },
        _ => {
            assert(rewrite_instruction(names, i).0.to_set() =~= names.to_set().union(
                instruction_pseudo_names(i),
            ));
        },
    }
}

/// The pseudo-to-stack sweep leaves no pseudo operand behind, and the names
/// it records are exactly the distinct pseudo names of the body.
pub proof fn lemma_rewrite_body_names(names: Seq<Seq<char>>, body: Seq<AsmInstructionView>)
    ensures
        body_has_no_pseudo(rewrite_body(names, body).1),
        rewrite_body(names, body).0.to_set() == names.to_set().union(body_pseudo_names(body)),
        names.no_duplicates() ==> rewrite_body(names, body).0.no_duplicates(),
        rewrite_body(names, body).1.len() == body.len(),
    decreases body.len(),
{
    if body.len() == 0 {
        assert(rewrite_body(names, body).0.to_set() =~= names.to_set().union(
            body_pseudo_names(body),
        ));
    } else {
        lemma_rewrite_body_names(names, body.drop_last());
        let (names1, prefix) = rewrite_body(names, body.drop_last());
        lemma_rewrite_instruction_names(names1, body.last());
        let (names2, last) = rewrite_instruction(names1, body.last());
        assert(rewrite_body(names, body).1 == prefix.push(last));
        assert forall|k: int| 0 <= k < prefix.push(last).len() implies !instruction_has_pseudo(
            prefix.push(last)[k],
        ) by {
            if k < prefix.len() {
                assert(prefix.push(last)[k] == prefix[k]);
            } else {
                assert(prefix.push(last)[k] == last);
            }
        }
        assert(names2.to_set() =~= names.to_set().union(body_pseudo_names(body)));
    }
}

/// After the whole assembly generation no operand is a pseudo operand and
/// no `Mov` has both operands on the stack.
pub proof fn lemma_generated_program_is_legal(t: TackyProgramView)
    ensures
        body_has_no_pseudo(asm_program_of(t).body),
        body_has_no_memory_mov(asm_program_of(t).body),
{
    let translated = translate_body(t.body);
    lemma_rewrite_body_names(Seq::<Seq<char>>::empty(), translated);
    let allocated = allocate_stack_pass(translated);
    let rewritten = rewrite_body(Seq::<Seq<char>>::empty(), translated).1;
    assert forall|k: int| 0 <= k < allocated.len() implies !instruction_has_pseudo(
        allocated[k],
    ) by {
        if k == 0 {
            assert(allocated[k] is AllocateStack);
        } else {
            assert(allocated[k] == rewritten[k - 1]);
        }
    }
    lemma_legalize_body_legal(allocated);
}

/// Legalization never produces a memory-to-memory `Mov`, and it keeps a
/// pseudo-free body pseudo-free.
pub proof fn lemma_legalize_body_legal(body: Seq<AsmInstructionView>)
    ensures
        body_has_no_memory_mov(legalize_body(body)),
        body_has_no_pseudo(body) ==> body_has_no_pseudo(legalize_body(body)),
    decreases body.len(),
{
    if body.len() > 0 {
        lemma_legalize_body_legal(body.drop_last());
        let prefix = legalize_body(body.drop_last());
        let appended = legalize_instruction(body.last());
        assert(body_has_no_pseudo(body) ==> body_has_no_pseudo(body.drop_last()));
        assert(body_has_no_pseudo(body) ==> !instruction_has_pseudo(body.last()));
        assert forall|k: int| 0 <= k < (prefix + appended).len() implies
            !is_memory_to_memory_mov((prefix + appended)[k]) by {
            if k < prefix.len() {
                assert((prefix + appended)[k] == prefix[k]);
            } else {
                assert((prefix + appended)[k] == appended[k - prefix.len()]);
            }
        }
        if body_has_no_pseudo(body) {
            assert forall|k: int| 0 <= k < (prefix + appended).len() implies
                !instruction_has_pseudo((prefix + appended)[k]) by {
                if k < prefix.len() {
                    assert((prefix + appended)[k] == prefix[k]);
                } else {
                    assert((prefix + appended)[k] == appended[k - prefix.len()]);
                    assert(!instruction_has_pseudo(body.last()));
                }
            }
        }
    }
}

/// Legalization distributes over concatenation of instruction lists.
pub proof fn lemma_legalize_body_concat(a: Seq<AsmInstructionView>, b: Seq<AsmInstructionView>)
    ensures
        legalize_body(a + b) == legalize_body(a) + legalize_body(b),
    decreases b.len(),
{
    if b.len() == 0 {
        assert(a + b =~= a);
        assert(legalize_body(a) + legalize_body(b) =~= legalize_body(a));
    } else {
        lemma_legalize_body_concat(a, b.drop_last());
        assert((a + b).drop_last() =~= a + b.drop_last());
        assert((a + b).last() == b.last());
        assert(legalize_body(a + b) =~= legalize_body(a) + legalize_body(b));
    }
}

/// A single already-legal instruction passes legalization unchanged.
proof fn lemma_legalize_single_fixed(i: AsmInstructionView)
    requires
        !is_memory_to_memory_mov(i),
    ensures
        legalize_body(seq![i]) == seq![i],
{
    assert(seq![i].drop_last() =~= Seq::<AsmInstructionView>::empty());
    assert(seq![i].last() == i);
    assert(legalize_body(Seq::<AsmInstructionView>::empty()) =~= Seq::<
        AsmInstructionView,
    >::empty());
    assert(legalize_instruction(i) == seq![i]);
    assert(legalize_body(seq![i]) == legalize_body(Seq::<AsmInstructionView>::empty())
        + legalize_instruction(i));
    assert(legalize_body(seq![i]) =~= seq![i]);
}

/// Legalization is idempotent: running the sweep a second time leaves the
/// instruction list unchanged.
pub proof fn lemma_legalize_idempotent(body: Seq<AsmInstructionView>)
    ensures
        legalize_body(legalize_body(body)) == legalize_body(body),
    decreases body.len(),
{
    if body.len() == 0 {
    } else {
        lemma_legalize_idempotent(body.drop_last());
        let prefix = legalize_body(body.drop_last());
        let appended = legalize_instruction(body.last());
        lemma_legalize_body_concat(prefix, appended);
        assert(legalize_body(legalize_body(body)) == legalize_body(prefix) + legalize_body(
            appended,
        ));
        if is_memory_to_memory_mov(body.last()) {
            let first = appended[0];
            let second = appended[1];
            assert(!is_memory_to_memory_mov(first));
            assert(!is_memory_to_memory_mov(second));
            assert(appended.drop_last() =~= seq![first]);
            assert(appended.last() == second);
            lemma_legalize_single_fixed(first);
            assert(legalize_body(appended) =~= appended);
        } else {
            assert(appended == seq![body.last()]);
            lemma_legalize_single_fixed(body.last());
        }
        assert(legalize_body(legalize_body(body)) =~= legalize_body(body));
    }
}

/// On a body without pseudo operands the pseudo-to-stack sweep is a no-op:
/// it rewrites nothing and records no names.
pub proof fn lemma_rewrite_no_pseudo_is_identity(names: Seq<Seq<char>>, body: Seq<
    AsmInstructionView,
>)
    requires
        body_has_no_pseudo(body),
    ensures
        rewrite_body(names, body).0 == names,
        rewrite_body(names, body).1 == body,
    decreases body.len(),
{
    if body.len() > 0 {
        assert(body_has_no_pseudo(body.drop_last()));
        assert(!instruction_has_pseudo(body.last()));
        lemma_rewrite_no_pseudo_is_identity(names, body.drop_last());
        assert(rewrite_instruction(names, body.last()) == (names, body.last()));
        assert(rewrite_body(names, body).1 =~= body);
    } else {
        assert(rewrite_body(names, body).1 =~= body);
    }
}

/// The head of a generated function body is `AllocateStack n` where `n` is
/// the number of distinct variable names of the intermediate representation.
pub proof fn lemma_head_allocates_distinct_variables(t: TackyProgramView)
    ensures
        asm_program_of(t).body.len() >= 1,
        asm_program_of(t).body[0] == AsmInstructionView::AllocateStack(
            body_variables(t.body).len() as u32,
        ),
{
    let translated = translate_body(t.body);
    let names = rewrite_body(Seq::<Seq<char>>::empty(), translated).0;
    let rewritten = rewrite_body(Seq::<Seq<char>>::empty(), translated).1;
    lemma_rewrite_body_names(Seq::<Seq<char>>::empty(), translated);
    lemma_translate_body_pseudo_names(t.body);
    assert(names.to_set() =~= body_variables(t.body));
    names.unique_seq_to_set();
    let head = seq![AsmInstructionView::AllocateStack(names.len() as u32)];
    lemma_legalize_body_concat(head, rewritten);
    lemma_legalize_single_fixed(head[0]);
    assert(head + rewritten =~= allocate_stack_pass(translated));
    assert(asm_program_of(t).body == legalize_body(head) + legalize_body(rewritten));
    assert(legalize_body(head) == head);
    assert(asm_program_of(t).body[0] == head[0]);
}

proof fn lemma_first_index_at(names: Seq<Seq<char>>, name: Seq<char>, i: int)
    requires
        0 <= i < names.len(),
        names[i] == name,
        forall|j: int| 0 <= j < i ==> names[j] != name,
    ensures
        first_index(names, name) == i,
    decreases i,
{
    if i > 0 {
        assert(names[0] != name);
        lemma_first_index_at(names.drop_first(), name, i - 1);
    }
}

fn gen_unary_operator(tacky_operator: TackyUnaryOperator) -> (r: AsmUnaryOperator)
    ensures
        r == asm_unary_operator(tacky_operator),
{
    match tacky_operator {
        TackyUnaryOperator::Complement => AsmUnaryOperator::Not,
        TackyUnaryOperator::Negate => AsmUnaryOperator::Neg,
    }
}

fn gen_operand(tacky_value: TackyOperand) -> (r: AsmOperand)
    ensures
        r@ == asm_operand_of(tacky_value@),
{
    match tacky_value {
        TackyOperand::Constant(integer) => AsmOperand::Imm(integer),
        TackyOperand::Variable(identifier) => {
            let TackyIdentifier::Identifier(name) = identifier;
            AsmOperand::Pseudo(AsmIdentifier::Identifier(name))
        },
    }
}

fn gen_function_definition(tacky_function_definition: TackyFunctionDefinition) -> (r:
    AsmFunctionDefinition)
    ensures
        r@.name == tacky_function_definition@.name,
        r@.body == translate_body(tacky_function_definition@.body),
{
    let TackyFunctionDefinition::Function(TackyIdentifier::Identifier(name), mut instructions) =
        tacky_function_definition;
    let ghost original = instructions@.map_values(|i: TackyInstruction| i@);
    let mut asm_instructions: Vec<AsmInstruction> = Vec::new();
    let ghost done = Seq::<TackyInstructionView>::empty();
    proof {
        assert(done + instructions@.map_values(|i: TackyInstruction| i@) =~= original);
        assert(asm_instructions@.map_values(|i: AsmInstruction| i@) =~= translate_body(done));
    }
    while instructions.len() > 0
        invariant
            done + instructions@.map_values(|i: TackyInstruction| i@) == original,
            asm_instructions@.map_values(|i: AsmInstruction| i@) == translate_body(done),
        decreases instructions.len(),
    {
        let instruction = instructions.remove(0);
        let ghost instruction_view = instruction@;
        let ghost before = asm_instructions@.map_values(|i: AsmInstruction| i@);
        match instruction {
            TackyInstruction::Return(value) => {
                asm_instructions.push(
                    AsmInstruction::Mov(gen_operand(value), AsmOperand::Register(AsmReg::AX)),
                );
                asm_instructions.push(AsmInstruction::Ret);
            },
            TackyInstruction::Unary(operator, src, dst) => {
                let dst_operand = gen_operand(dst);
                let dst_copy = match &dst_operand {
                    AsmOperand::Pseudo(AsmIdentifier::Identifier(name)) => AsmOperand::Pseudo(
                        AsmIdentifier::Identifier(name.clone()),
                    ),
                    AsmOperand::Imm(n) => AsmOperand::Imm(*n),
                    AsmOperand::Register(reg) => AsmOperand::Register(*reg),
                    AsmOperand::Stack(n) => AsmOperand::Stack(*n),
                };
                asm_instructions.push(AsmInstruction::Mov(gen_operand(src), dst_operand));
                asm_instructions.push(
                    AsmInstruction::Unary(gen_unary_operator(operator), dst_copy),
                );
            },
        }
        proof {
            let appended = translate_instruction(instruction_view);
            assert(asm_instructions@.map_values(|i: AsmInstruction| i@) =~= before + appended);
            assert(done.push(instruction_view).drop_last() =~= done);
            assert(translate_body(done.push(instruction_view)) == translate_body(done)
                + appended);
            done = done.push(instruction_view);
            assert(done + instructions@.map_values(|i: TackyInstruction| i@) =~= original);
        }
    }
    proof {
        assert(done =~= original);
    }
    AsmFunctionDefinition::Function(AsmIdentifier::Identifier(name), asm_instructions)
}

fn gen_program(tacky_program: TackyProgram) -> (r: AsmProgram)
    ensures
        r@.name == tacky_program@.name,
        r@.body == translate_body(tacky_program@.body),
{
    let TackyProgram::Program(function_definition) = tacky_program;
    AsmProgram::Program(gen_function_definition(function_definition))
}

/// Looks `name` up in the slot record, adding it if new, and returns its
/// stack slot.
fn lookup_or_insert_slot(stack_names: &mut Vec<String>, name: String) -> (r: u32)
    ensures
        names_view(final(stack_names)@) == ({
            if contains_name(names_view(old(stack_names)@), name@) {
                names_view(old(stack_names)@)
            } else {
                names_view(old(stack_names)@).push(name@)
            }
        }),
        r == first_index(names_view(final(stack_names)@), name@) as u32,
{
    let ghost names = names_view(stack_names@);
    let mut i: usize = 0;
    while i < stack_names.len()
        invariant
            names == names_view(stack_names@),
            0 <= i <= stack_names.len(),
            forall|j: int| 0 <= j < i ==> names[j] != name@,
        decreases stack_names.len() - i,
    {
        if stack_names[i] == name {
            proof {
                assert(names[i as int] == stack_names@[i as int]@);
                assert(names[i as int] == name@);
                assert(contains_name(names, name@));
                lemma_first_index_at(names, name@, i as int);
            }
            return i as u32;
        }
        i = i + 1;
    }
    let slot = stack_names.len();
    let ghost name_view = name@;
    stack_names.push(name);
    proof {
        assert(names.len() == slot);
        assert(forall|j: int| 0 <= j < names.len() ==> names[j] != name_view);
        assert(!contains_name(names, name_view));
        assert(stack_names@.last()@ == name_view);
        assert(names_view(stack_names@) =~= names.push(name_view));
        let recorded = names.push(name_view);
        assert(recorded[slot as int] == name_view);
        assert(forall|j: int| 0 <= j < slot ==> recorded[j] == names[j]);
        lemma_first_index_at(recorded, name_view, slot as int);
    }
    slot as u32
}

/// Rewrites a pseudo operand to its stack slot, recording a new name;
/// leaves every other operand unchanged.
pub fn check_and_replace_pseudo_register(asm_operand: AsmOperand, stack_names: &mut Vec<String>)
    -> (r: AsmOperand)
    ensures
        names_view(final(stack_names)@) == rewrite_operand(
            names_view(old(stack_names)@),
            asm_operand@,
        ).0,
        r@ == rewrite_operand(names_view(old(stack_names)@), asm_operand@).1,
{
    match asm_operand {
        AsmOperand::Pseudo(AsmIdentifier::Identifier(name)) => {
            let slot = lookup_or_insert_slot(stack_names, name);
            AsmOperand::Stack(slot)
        },
        other => other,
    }
}

/// The pseudo-to-stack pass: rewrites every pseudo operand to a stack slot
/// assigned in first-occurrence order and puts an `AllocateStack` for the
/// number of distinct names at the head of the instruction list.
pub fn assign_pseudo_registers_to_stack(asm_program: AsmProgram) -> (r: AsmProgram)
    ensures
        r@.name == asm_program@.name,
        r@.body == allocate_stack_pass(asm_program@.body),
{
    let AsmProgram::Program(AsmFunctionDefinition::Function(name, mut instructions)) =
        asm_program;
    let ghost original = instructions@.map_values(|i: AsmInstruction| i@);
    let mut stack_names: Vec<String> = Vec::new();
    let mut rewritten: Vec<AsmInstruction> = Vec::new();
    let ghost done = Seq::<AsmInstructionView>::empty();
    proof {
        assert(done + instructions@.map_values(|i: AsmInstruction| i@) =~= original);
        assert(rewritten@.map_values(|i: AsmInstruction| i@) =~= rewrite_body(
            Seq::<Seq<char>>::empty(),
            done,
        ).1);
        assert(names_view(stack_names@) =~= rewrite_body(Seq::<Seq<char>>::empty(), done).0);
    }
    while instructions.len() > 0
        invariant
            done + instructions@.map_values(|i: AsmInstruction| i@) == original,
            names_view(stack_names@) == rewrite_body(Seq::<Seq<char>>::empty(), done).0,
            rewritten@.map_values(|i: AsmInstruction| i@) == rewrite_body(
                Seq::<Seq<char>>::empty(),
                done,
            ).1,
        decreases instructions.len(),
    {
        let instruction = instructions.remove(0);
        let ghost instruction_view = instruction@;
        let ghost before = rewritten@.map_values(|i: AsmInstruction| i@);
        let new_instruction = match instruction {
            AsmInstruction::Mov(src, dst) => {
                let src2 = check_and_replace_pseudo_register(src, &mut stack_names);
                let dst2 = check_and_replace_pseudo_register(dst, &mut stack_names);
                AsmInstruction::Mov(src2, dst2)
            },
            AsmInstruction::Unary(operator, dst) => {
                let dst2 = check_and_replace_pseudo_register(dst, &mut stack_names);
                AsmInstruction::Unary(operator, dst2)
            },
            other => other,
        };
        rewritten.push(new_instruction);
        proof {
            assert(done.push(instruction_view).drop_last() =~= done);
            assert(rewritten@.map_values(|i: AsmInstruction| i@) =~= before.push(
                rewritten@.last()@,
            ));
            done = done.push(instruction_view);
            assert(done + instructions@.map_values(|i: AsmInstruction| i@) =~= original);
        }
    }
    proof {
        assert(done =~= original);
    }
    let mut body: Vec<AsmInstruction> = Vec::new();
    body.push(AsmInstruction::AllocateStack(stack_names.len() as u32));
    body.append(&mut rewritten);
    proof {
        assert(body@.map_values(|i: AsmInstruction| i@) =~= allocate_stack_pass(original));
    }
    AsmProgram::Program(AsmFunctionDefinition::Function(name, body))
}

/// The legalization pass: every `Mov` with both operands on the stack is
/// split into a move through the scratch register `R10`.
pub fn fix_invalid_mov_instructions(asm_program: AsmProgram) -> (r: AsmProgram)
    ensures
        r@.name == asm_program@.name,
        r@.body == legalize_body(asm_program@.body),
{
    let AsmProgram::Program(AsmFunctionDefinition::Function(name, mut instructions)) =
        asm_program;
    let ghost original = instructions@.map_values(|i: AsmInstruction| i@);
    let mut legalized: Vec<AsmInstruction> = Vec::new();
    let ghost done = Seq::<AsmInstructionView>::empty();
    proof {
        assert(done + instructions@.map_values(|i: AsmInstruction| i@) =~= original);
        assert(legalized@.map_values(|i: AsmInstruction| i@) =~= legalize_body(done));
    }
    while instructions.len() > 0
        invariant
            done + instructions@.map_values(|i: AsmInstruction| i@) == original,
            legalized@.map_values(|i: AsmInstruction| i@) == legalize_body(done),
        decreases instructions.len(),
    {
        let instruction = instructions.remove(0);
        let ghost instruction_view = instruction@;
        let ghost before = legalized@.map_values(|i: AsmInstruction| i@);
        match instruction {
            AsmInstruction::Mov(AsmOperand::Stack(src_slot), AsmOperand::Stack(dst_slot)) => {
                legalized.push(
                    AsmInstruction::Mov(
                        AsmOperand::Stack(src_slot),
                        AsmOperand::Register(AsmReg::R10),
                    ),
                );
                legalized.push(
                    AsmInstruction::Mov(
                        AsmOperand::Register(AsmReg::R10),
                        AsmOperand::Stack(dst_slot),
                    ),
                );
            },
            other => {
                legalized.push(other);
            },
        }
        proof {
            assert(done.push(instruction_view).drop_last() =~= done);
            assert(legalized@.map_values(|i: AsmInstruction| i@) =~= before
                + legalize_instruction(instruction_view));
            done = done.push(instruction_view);
            assert(done + instructions@.map_values(|i: AsmInstruction| i@) =~= original);
        }
    }
    proof {
        assert(done =~= original);
    }
    AsmProgram::Program(AsmFunctionDefinition::Function(name, legalized))
}

/// Generates abstract assembly for an intermediate-representation program
/// and runs both fixup passes. The result is exactly the specification-level
/// translation of the input's model.
pub fn gen_asm_program(tacky_program: TackyProgram) -> (r: AsmProgram)
    ensures
        r@ == asm_program_of(tacky_program@),
{
    let translated = gen_program(tacky_program);
    let allocated = assign_pseudo_registers_to_stack(translated);
    let legalized = fix_invalid_mov_instructions(allocated);
    legalized
}

} // verus!
