//! End-to-end scenarios: the generator's output is assembled and run
//! on a small reference interpreter for the target machine.

use std::collections::HashMap;
use vm_translator::translate::parse;
use vm_translator::writer::Writer;

#[derive(Clone)]
enum Ins {
    At(u16),
    C { dest: String, comp: String, jump: String },
}

fn predefined(sym: &str) -> Option<u16> {
    match sym {
        "SP" => Some(0),
        "LCL" => Some(1),
        "ARG" => Some(2),
        "THIS" => Some(3),
        "THAT" => Some(4),
        "SCREEN" => Some(16384),
        "KBD" => Some(24576),
        _ => {
            if let Some(stripped) = sym.strip_prefix('R') {
                if let Ok(n) = stripped.parse::<u16>() {
                    if n <= 15 {
                        return Some(n);
                    }
                }
            }
            None
        }
    }
}

/// Two-pass assembly of the emitted text into executable form.
fn assemble(text: &str) -> Vec<Ins> {
    let mut raw: Vec<String> = Vec::new();
    let mut labels: HashMap<String, u16> = HashMap::new();
    for line in text.lines() {
        let line = line.trim();
        if line.is_empty() || line.starts_with("//") {
            continue;
        }
        if line.starts_with('(') {
            let name = line.trim_matches(|c| c == '(' || c == ')');
            labels.insert(name.to_string(), raw.len() as u16);
        } else {
            raw.push(line.to_string());
        }
    }
    let mut vars: HashMap<String, u16> = HashMap::new();
    let mut next_var: u16 = 16;
    let mut out = Vec::new();
    for line in &raw {
        if let Some(sym) = line.strip_prefix('@') {
            let val = if let Ok(n) = sym.parse::<u16>() {
                n
            } else if let Some(&n) = labels.get(sym) {
                n
            } else if let Some(n) = predefined(sym) {
                n
            } else {
                if !vars.contains_key(sym) {
                    vars.insert(sym.to_string(), next_var);
                    next_var += 1;
                }
                vars[sym]
            };
            out.push(Ins::At(val));
        } else {
            let (dest, rest) = match line.split_once('=') {
                Some((d, r)) => (d.to_string(), r),
                None => (String::new(), line.as_str()),
            };
            let (cmp, jump) = match rest.split_once(';') {
                Some((c, j)) => (c.to_string(), j.to_string()),
                None => (rest.to_string(), String::new()),
            };
            out.push(Ins::C { dest, comp: cmp, jump });
        }
    }
    out
}

struct Mach {
    a: u16,
    d: u16,
    ram: Vec<u16>,
}

fn new_mach() -> Mach {
    Mach { a: 0, d: 0, ram: vec![0u16; 65536] }
}

fn eval(comp: &str, m: &Mach) -> u16 {
    let a = m.a;
    let d = m.d;
    let mm = m.ram[a as usize];
    match comp {
        "0" => 0,
        "1" => 1,
        "-1" => 0xFFFF,
        "D" => d,
        "A" => a,
        "M" => mm,
        "!D" => !d,
        "!A" => !a,
        "!M" => !mm,
        "-D" => d.wrapping_neg(),
        "-A" => a.wrapping_neg(),
        "-M" => mm.wrapping_neg(),
        "D+1" => d.wrapping_add(1),
        "A+1" => a.wrapping_add(1),
        "M+1" => mm.wrapping_add(1),
        "D-1" => d.wrapping_sub(1),
        "A-1" => a.wrapping_sub(1),
        "M-1" => mm.wrapping_sub(1),
        "D+A" => d.wrapping_add(a),
        "D+M" => d.wrapping_add(mm),
        "D-A" => d.wrapping_sub(a),
        "D-M" => d.wrapping_sub(mm),
        "A-D" => a.wrapping_sub(d),
        "M-D" => mm.wrapping_sub(d),
        "D&A" => d & a,
        "D&M" => d & mm,
        "D|A" => d | a,
        "D|M" => d | mm,
        _ => panic!("unknown computation: {}", comp),
    }
}

/// Runs until the program counter leaves the program or the step
/// budget is spent.
fn run(instrs: &[Ins], m: &mut Mach, max_steps: usize) {
    let mut pc: usize = 0;
    let mut steps: usize = 0;
    while pc < instrs.len() && steps < max_steps {
        match &instrs[pc] {
            Ins::At(n) => {
                m.a = *n;
                pc += 1;
            }
            Ins::C { dest, comp, jump } => {
                let v = eval(comp, m);
                if dest.contains('M') {
                    m.ram[m.a as usize] = v;
                }
                if dest.contains('D') {
                    m.d = v;
                }
                if dest.contains('A') {
                    m.a = v;
                }
                let taken = match jump.as_str() {
                    "" => false,
                    "JGT" => (v as i16) > 0,
                    "JEQ" => v == 0,
                    "JGE" => (v as i16) >= 0,
                    "JLT" => (v as i16) < 0,
                    "JNE" => v != 0,
                    "JLE" => (v as i16) <= 0,
                    "JMP" => true,
                    other => panic!("unknown jump: {}", other),
                };
                if taken {
                    pc = m.a as usize;
                } else {
                    pc += 1;
                }
            }
        }
        steps += 1;
    }
}

#[test]
fn end_to_end_add_leaves_one_value() {
    let out = parse("push constant 7\npush constant 8\nadd", "Test").unwrap();
    let instrs = assemble(&out);
    let mut m = new_mach();
    m.ram[0] = 256;
    run(&instrs, &mut m, 10_000);
    assert_eq!(m.ram[256], 15);
    assert_eq!(m.ram[0], 257);
}

#[test]
fn end_to_end_pop_local_fills_the_slot() {
    let out = parse("push constant 10\npop local 0", "Test").unwrap();
    let instrs = assemble(&out);
    let mut m = new_mach();
    m.ram[0] = 257; // one value of headroom above the local slot
    m.ram[1] = 256; // a frame with one local slot at 256
    run(&instrs, &mut m, 10_000);
    assert_eq!(m.ram[256], 10);
    assert_eq!(m.ram[0], 257);
}

#[test]
fn call_and_return_round_trip() {
    let source = "function Main 0\npush constant 11\npush constant 22\ncall Foo 2\nlabel DONE\ngoto DONE\nfunction Foo 0\npush constant 9\nreturn";
    let out = parse(source, "Test").unwrap();
    let instrs = assemble(&out);
    let mut m = new_mach();
    m.ram[0] = 256; // SP
    m.ram[1] = 1000; // LCL
    m.ram[2] = 900; // ARG
    m.ram[3] = 3000; // THIS
    m.ram[4] = 3010; // THAT
    run(&instrs, &mut m, 10_000);
    // the two arguments are consumed, one return value remains
    assert_eq!(m.ram[0], 257);
    assert_eq!(m.ram[256], 9);
    // the caller's bases are exactly as before the call
    assert_eq!(m.ram[1], 1000);
    assert_eq!(m.ram[2], 900);
    assert_eq!(m.ram[3], 3000);
    assert_eq!(m.ram[4], 3010);
}

#[test]
fn bootstrap_sets_sp_before_any_call() {
    let mut w = Writer::new("Sys");
    w.write_init();
    let instrs = assemble(&w.output);
    let mut m = new_mach();
    // the first four instructions initialize the stack pointer; the
    // synthetic call comes only after them
    run(&instrs, &mut m, 4);
    assert_eq!(m.ram[0], 256);
}

#[test]
fn bootstrap_reaches_the_entry_point() {
    let mut w = Writer::new("Sys");
    w.write_init();
    let unit = parse("function Sys.init 0\nlabel HALT\ngoto HALT", "Sys").unwrap();
    let text = format!("{}{}", w.output, unit);
    let instrs = assemble(&text);
    let mut m = new_mach();
    run(&instrs, &mut m, 10_000);
    // the synthetic call built a five-word frame above the stack base
    assert_eq!(m.ram[0], 261);
    assert_eq!(m.ram[1], 261);
    assert_eq!(m.ram[2], 256);
}

#[test]
fn binary_and_unary_operator_deltas() {
    // subtraction: two operands consumed, one result produced
    let out = parse("push constant 3\npush constant 10\nsub", "Test").unwrap();
    let mut m = new_mach();
    m.ram[0] = 256;
    run(&assemble(&out), &mut m, 10_000);
    assert_eq!(m.ram[0], 257);
    assert_eq!(m.ram[256], 3u16.wrapping_sub(10));

    // negation: the stack top is rewritten in place
    let out2 = parse("push constant 5\nneg", "Test").unwrap();
    let mut m2 = new_mach();
    m2.ram[0] = 256;
    run(&assemble(&out2), &mut m2, 10_000);
    assert_eq!(m2.ram[0], 257);
    assert_eq!(m2.ram[256], 5u16.wrapping_neg());
}

#[test]
fn comparisons_leave_canonical_truth_values() {
    let out = parse("push constant 4\npush constant 4\neq", "Test").unwrap();
    let mut m = new_mach();
    m.ram[0] = 256;
    run(&assemble(&out), &mut m, 10_000);
    assert_eq!(m.ram[0], 257);
    assert_eq!(m.ram[256], 0xFFFF);

    let out2 = parse("push constant 4\npush constant 5\ngt", "Test").unwrap();
    let mut m2 = new_mach();
    m2.ram[0] = 256;
    run(&assemble(&out2), &mut m2, 10_000);
    assert_eq!(m2.ram[0], 257);
    assert_eq!(m2.ram[256], 0);

    let out3 = parse("push constant 4\npush constant 5\nlt", "Test").unwrap();
    let mut m3 = new_mach();
    m3.ram[0] = 256;
    run(&assemble(&out3), &mut m3, 10_000);
    assert_eq!(m3.ram[0], 257);
    assert_eq!(m3.ram[256], 0xFFFF);
}

#[test]
fn statics_of_two_namespaces_use_distinct_cells() {
    let out_a = parse("push constant 21\npop static 3", "A").unwrap();
    let out_b = parse("push constant 42\npop static 3", "B").unwrap();
    let text = format!("{}{}", out_a, out_b);
    let instrs = assemble(&text);
    let mut m = new_mach();
    m.ram[0] = 256;
    run(&instrs, &mut m, 10_000);
    // the assembler allocated two distinct variable cells
    assert_eq!(m.ram[16], 21);
    assert_eq!(m.ram[17], 42);
    assert_eq!(m.ram[0], 256);
}
