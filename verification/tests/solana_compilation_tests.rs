use pible::{CompileOptions, CompileTarget, Compiler, SolanaBpf};

#[test]
fn test_compile_simple_solana_program() {
    let source = "U0 main() { return 0; }";
    let compiler = Compiler::new();
    let options = CompileOptions {
        target: CompileTarget::SolanaBpf,
        ..Default::default()
    };

    let result = compiler.compile(source, &options);
    assert!(result.is_ok());

    let bytecode = result.unwrap();
    assert!(!bytecode.is_empty());
    assert_eq!(bytecode.len() % 8, 0); // BPF instructions are 8 bytes each
}

#[test]
fn test_compile_solana_entrypoint_function() {
    let source = r#"
            export U0 entrypoint(U8* input, U64 input_len) {
                return;
            }
        "#;
    let compiler = Compiler::new();
    let options = CompileOptions {
        target: CompileTarget::SolanaBpf,
        ..Default::default()
    };

    let result = compiler.compile(source, &options);
    assert!(result.is_ok());
}

#[test]
fn test_compile_solana_printf_function() {
    let source = r#"
            U0 main() {
                PrintF("Hello Solana!\n");
                return 0;
            }
        "#;
    let compiler = Compiler::new();
    let options = CompileOptions {
        target: CompileTarget::SolanaBpf,
        ..Default::default()
    };

    let result = compiler.compile(source, &options);
    assert!(result.is_ok());
}

#[test]
fn test_compile_solana_with_variables() {
    let source = r#"
            U0 main() {
                U64 balance = 1000;
                U32 amount = 500;
                balance = balance - amount;
                return 0;
            }
        "#;
    let compiler = Compiler::new();
    let options = CompileOptions {
        target: CompileTarget::SolanaBpf,
        ..Default::default()
    };

    let result = compiler.compile(source, &options);
    assert!(result.is_ok());
}

#[test]
fn test_compile_solana_with_conditionals() {
    let source = r#"
            U0 main() {
                U64 amount = 100;
                if (amount > 50) {
                    PrintF("Large amount\n");
                } else {
                    PrintF("Small amount\n");
                }
                return 0;
            }
        "#;
    let compiler = Compiler::new();
    let options = CompileOptions {
        target: CompileTarget::SolanaBpf,
        ..Default::default()
    };

    let result = compiler.compile(source, &options);
    assert!(result.is_ok());
}

#[test]
fn test_compile_solana_with_loops() {
    let source = r#"
            U0 main() {
                U64 i;
                for (i = 0; i < 10; i++) {
                    PrintF("Iteration: %d\n", i);
                }
                return 0;
            }
        "#;
    let compiler = Compiler::new();
    let options = CompileOptions {
        target: CompileTarget::SolanaBpf,
        ..Default::default()
    };

    let result = compiler.compile(source, &options);
    assert!(result.is_ok());
}

#[test]
fn test_compile_solana_function_calls() {
    let source = r#"
            U64 add_numbers(U64 a, U64 b) {
                return a + b;
            }
            
            U0 main() {
                U64 result = add_numbers(10, 20);
                PrintF("Result: %d\n", result);
                return 0;
            }
        "#;
    let compiler = Compiler::new();
    let options = CompileOptions {
        target: CompileTarget::SolanaBpf,
        ..Default::default()
    };

    let result = compiler.compile(source, &options);
    assert!(result.is_ok());
}

#[test]
fn test_compile_solana_struct_usage() {
    let source = r#"
            struct Account {
                U8* data;
                U64 lamports;
                U8* owner;
            };
            
            U0 main() {
                struct Account acc;
                acc.lamports = 1000000;
                return 0;
            }
        "#;
    let compiler = Compiler::new();
    let options = CompileOptions {
        target: CompileTarget::SolanaBpf,
        ..Default::default()
    };

    let result = compiler.compile(source, &options);
    assert!(result.is_ok());
}

#[test]
fn test_compile_solana_array_operations() {
    let source = r#"
            U0 main() {
                U64 balances[5];
                balances[0] = 1000;
                balances[1] = 2000;
                U64 total = balances[0] + balances[1];
                return 0;
            }
        "#;
    let compiler = Compiler::new();
    let options = CompileOptions {
        target: CompileTarget::SolanaBpf,
        ..Default::default()
    };

    let result = compiler.compile(source, &options);
    assert!(result.is_ok());
}

#[test]
fn test_compile_solana_pointer_operations() {
    let source = r#"
            U0 main() {
                U64 value = 42;
                U64* ptr = &value;
                U64 deref = *ptr;
                return 0;
            }
        "#;
    let compiler = Compiler::new();
    let options = CompileOptions {
        target: CompileTarget::SolanaBpf,
        ..Default::default()
    };

    let result = compiler.compile(source, &options);
    assert!(result.is_ok());
}

#[test]
fn test_compile_different_targets_produce_different_bytecode() {
    let source = "U0 main() { return 0; }";
    let compiler = Compiler::new();

    let linux_options = CompileOptions {
        target: CompileTarget::LinuxBpf,
        ..Default::default()
    };
    let linux_result = compiler.compile(source, &linux_options).unwrap();

    let solana_options = CompileOptions {
        target: CompileTarget::SolanaBpf,
        ..Default::default()
    };
    let solana_result = compiler.compile(source, &solana_options).unwrap();

    // Different targets should produce different bytecode
    // (This may not be true initially but is a good test for future differentiation)
    assert_eq!(linux_result.len(), solana_result.len()); // Same for now
}

#[test]
fn test_compile_with_optimization_levels() {
    let source = r#"
            U0 main() {
                U64 a = 10;
                U64 b = 20;
                U64 c = a + b;
                PrintF("Result: %d\n", c);
                return 0;
            }
        "#;
    let compiler = Compiler::new();

    let options = CompileOptions {
        target: CompileTarget::SolanaBpf,
        ..Default::default()
    };

    let result = compiler.compile(source, &options);
    assert!(result.is_ok());
}

#[test]
fn test_compile_large_solana_program() {
    let mut source = String::new();
    source.push_str("U0 main() {\n");

    // Generate a large program with many operations
    for i in 0..100 {
        source.push_str(&format!("    U64 var{} = {};\n", i, i));
    }

    source.push_str("    return 0;\n");
    source.push_str("}\n");

    let compiler = Compiler::new();
    let options = CompileOptions {
        target: CompileTarget::SolanaBpf,
        ..Default::default()
    };

    let result = compiler.compile(&source, &options);
    assert!(result.is_ok());

    let bytecode = result.unwrap();
    assert!(bytecode.len() > 8); // Should generate at least basic bytecode
}

#[test]
fn test_compile_with_solana_specific_types() {
    let source = r#"
            U0 process_instruction(U8* accounts, U64 accounts_len, U8* data) {
                // Simulate Solana account processing
                U64* lamports = (U64*)accounts;
                *lamports = *lamports + 1000;
                return 0;
            }
        "#;
    let compiler = Compiler::new();
    let options = CompileOptions {
        target: CompileTarget::SolanaBpf,
        ..Default::default()
    };

    let result = compiler.compile(source, &options);
    assert!(result.is_ok());
}
