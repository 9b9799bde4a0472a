//! Whole-block runs: a script module executes against the real Wasm engine,
//! with every host call served from the verified runtime.

use ewasm::{Execute, HostError, RootRuntime};
use wasmi::{AsContextMut, Caller};

type Host = Option<RootRuntime>;

fn trap(e: HostError) -> wasmi::Error {
    wasmi::Error::new(e.describe())
}

fn rt<'a>(caller: &'a Caller<'_, Host>) -> &'a RootRuntime {
    caller.data().as_ref().expect("runtime present")
}

fn rt_mut<'a>(caller: &'a mut Caller<'_, Host>) -> &'a mut RootRuntime {
    caller.data_mut().as_mut().expect("runtime present")
}

fn own_memory(caller: &Caller<'_, Host>) -> wasmi::Memory {
    match caller.get_export("memory") {
        Some(wasmi::Extern::Memory(m)) => m,
        _ => panic!("module expected to have 'memory' export"),
    }
}

/// The child-side import table, serving the sub-module loaded in `slot`.
fn child_linker(engine: &wasmi::Engine, slot: u32) -> wasmi::Linker<Host> {
    let mut linker = wasmi::Linker::new(engine);
    linker
        .func_wrap(
            "env",
            "eth2_argument",
            move |mut caller: Caller<'_, Host>, dest_ptr: u32, dest_len: u32| -> Result<
                i32,
                wasmi::Error,
            > {
                let frame = rt(&caller).child_top_frame(slot).map_err(trap)?;
                let own_mem = own_memory(&caller);
                let caller_img = frame.memory.data(&caller).to_vec();
                let mut own_img = own_mem.data(&caller).to_vec();
                let n = frame
                    .transfer_argument(&caller_img, &mut own_img, dest_ptr, dest_len)
                    .map_err(trap)?;
                own_mem.data_mut(&mut caller).copy_from_slice(&own_img);
                Ok(n as i32)
            },
        )
        .unwrap();
    linker
        .func_wrap(
            "env",
            "eth2_return",
            move |mut caller: Caller<'_, Host>, src_ptr: u32, src_len: u32| -> Result<
                i32,
                wasmi::Error,
            > {
                let frame = rt(&caller).child_top_frame(slot).map_err(trap)?;
                let own_mem = own_memory(&caller);
                let own_img = own_mem.data(&caller).to_vec();
                let mut parent_img = frame.memory.data(&caller).to_vec();
                let n = frame
                    .transfer_return(&own_img, &mut parent_img, src_ptr, src_len)
                    .map_err(trap)?;
                frame.memory.data_mut(&mut caller).copy_from_slice(&parent_img);
                Ok(n as i32)
            },
        )
        .unwrap();
    linker
        .func_wrap(
            "env",
            "eth2_call",
            move |mut caller: Caller<'_, Host>,
                  name_ptr: u32,
                  name_len: u32,
                  arg_ptr: u32,
                  arg_len: u32,
                  ret_ptr: u32,
                  ret_len: u32| -> Result<i32, wasmi::Error> {
                let own_mem = own_memory(&caller);
                let child_img = own_mem.data(&caller).to_vec();
                let name = rt_mut(&mut caller)
                    .child_call_begin(
                        &child_img, slot, name_ptr, name_len, arg_ptr, arg_len, ret_ptr, ret_len,
                    )
                    .map_err(trap)?;
                let name = String::from_utf8(name).expect("name is valid UTF-8");
                let root_instance = rt(&caller).root_instance();
                let func = root_instance.get_typed_func::<(), i32>(&caller, &name)?;
                let code = func.call(&mut caller, ())?;
                rt_mut(&mut caller).child_call_end().map_err(trap)?;
                Ok(code)
            },
        )
        .unwrap();
    linker
        .func_wrap(
            "env",
            "print",
            move |_caller: Caller<'_, Host>, _ptr: u32, _len: u32| {},
        )
        .unwrap();
    linker
}

/// The root-side import table, serving the script module.
fn root_linker(engine: &wasmi::Engine) -> wasmi::Linker<Host> {
    let mut linker = wasmi::Linker::new(engine);
    linker
        .func_wrap(
            "env",
            "eth2_loadPreStateRoot",
            |mut caller: Caller<'_, Host>, ptr: u32| -> Result<(), wasmi::Error> {
                let mem = rt(&caller).root_memory();
                let mut img = mem.data(&caller).to_vec();
                rt(&caller).load_pre_state_root(&mut img, ptr).map_err(trap)?;
                mem.data_mut(&mut caller).copy_from_slice(&img);
                Ok(())
            },
        )
        .unwrap();
    linker
        .func_wrap(
            "env",
            "eth2_savePostStateRoot",
            |mut caller: Caller<'_, Host>, ptr: u32| -> Result<(), wasmi::Error> {
                let mem = rt(&caller).root_memory();
                let img = mem.data(&caller).to_vec();
                rt_mut(&mut caller).save_post_state_root(&img, ptr).map_err(trap)?;
                Ok(())
            },
        )
        .unwrap();
    linker
        .func_wrap(
            "env",
            "eth2_blockDataSize",
            |caller: Caller<'_, Host>| -> i32 { rt(&caller).block_data_size() },
        )
        .unwrap();
    linker
        .func_wrap(
            "env",
            "eth2_blockDataCopy",
            |mut caller: Caller<'_, Host>, ptr: u32, offset: u32, length: u32| -> Result<
                (),
                wasmi::Error,
            > {
                let mem = rt(&caller).root_memory();
                let mut img = mem.data(&caller).to_vec();
                rt(&caller).block_data_copy(&mut img, ptr, offset, length).map_err(trap)?;
                mem.data_mut(&mut caller).copy_from_slice(&img);
                Ok(())
            },
        )
        .unwrap();
    linker
        .func_wrap(
            "env",
            "eth2_bufferGet",
            |mut caller: Caller<'_, Host>, frame: u32, key_ptr: u32, value_ptr: u32| -> Result<
                i32,
                wasmi::Error,
            > {
                let mem = rt(&caller).root_memory();
                let mut img = mem.data(&caller).to_vec();
                let code = rt(&caller)
                    .buffer_get(&mut img, frame, key_ptr, value_ptr)
                    .map_err(trap)?;
                mem.data_mut(&mut caller).copy_from_slice(&img);
                Ok(code)
            },
        )
        .unwrap();
    linker
        .func_wrap(
            "env",
            "eth2_bufferSet",
            |mut caller: Caller<'_, Host>, frame: u32, key_ptr: u32, value_ptr: u32| -> Result<
                (),
                wasmi::Error,
            > {
                let mem = rt(&caller).root_memory();
                let img = mem.data(&caller).to_vec();
                rt_mut(&mut caller).buffer_set(&img, frame, key_ptr, value_ptr).map_err(trap)?;
                Ok(())
            },
        )
        .unwrap();
    linker
        .func_wrap(
            "env",
            "eth2_bufferMerge",
            |mut caller: Caller<'_, Host>, frame_a: u32, frame_b: u32| {
                rt_mut(&mut caller).buffer_merge(frame_a, frame_b);
            },
        )
        .unwrap();
    linker
        .func_wrap("env", "eth2_bufferClear", |mut caller: Caller<'_, Host>, frame: u32| {
            rt_mut(&mut caller).buffer_clear(frame);
        })
        .unwrap();
    linker
        .func_wrap(
            "env",
            "eth2_expose",
            |mut caller: Caller<'_, Host>, name_ptr: u32, name_len: u32| -> Result<
                (),
                wasmi::Error,
            > {
                let mem = rt(&caller).root_memory();
                let img = mem.data(&caller).to_vec();
                rt_mut(&mut caller).expose(&img, name_ptr, name_len).map_err(trap)?;
                Ok(())
            },
        )
        .unwrap();
    linker
        .func_wrap(
            "env",
            "eth2_loadModule",
            |mut caller: Caller<'_, Host>, slot: u32, code_ptr: u32, code_len: u32| -> Result<
                (),
                wasmi::Error,
            > {
                let mem = rt(&caller).root_memory();
                let img = mem.data(&caller).to_vec();
                let code = rt(&caller)
                    .load_module_begin(&img, slot, code_ptr, code_len)
                    .map_err(trap)?;
                let engine = caller.engine().clone();
                let module = wasmi::Module::new(&engine, &code[..])?;
                let child = child_linker(&engine, slot);
                let instance = child.instantiate_and_start(&mut caller, &module)?;
                let memory = instance
                    .get_memory(&caller, "memory")
                    .ok_or_else(|| wasmi::Error::new("module expected to have 'memory' export"))?;
                rt_mut(&mut caller).load_module_finish(slot, instance, memory).map_err(trap)?;
                Ok(())
            },
        )
        .unwrap();
    linker
        .func_wrap(
            "env",
            "eth2_callModule",
            |mut caller: Caller<'_, Host>,
             slot: u32,
             name_ptr: u32,
             name_len: u32,
             arg_ptr: u32,
             arg_len: u32,
             ret_ptr: u32,
             ret_len: u32| -> Result<i32, wasmi::Error> {
                let mem = rt(&caller).root_memory();
                let img = mem.data(&caller).to_vec();
                let (name, child_instance) = rt_mut(&mut caller)
                    .call_module_begin(
                        &img, slot, name_ptr, name_len, arg_ptr, arg_len, ret_ptr, ret_len,
                    )
                    .map_err(trap)?;
                let name = String::from_utf8(name).expect("name is valid UTF-8");
                let func = child_instance.get_typed_func::<(), i32>(&caller, &name)?;
                let code = func.call(&mut caller, ())?;
                rt_mut(&mut caller).call_module_end(slot).map_err(trap)?;
                Ok(code)
            },
        )
        .unwrap();
    linker
        .func_wrap(
            "env",
            "eth2_argument",
            |mut caller: Caller<'_, Host>, dest_ptr: u32, dest_len: u32| -> Result<
                i32,
                wasmi::Error,
            > {
                let frame = rt(&caller).top_frame().map_err(trap)?;
                let own_mem = rt(&caller).root_memory();
                let caller_img = frame.memory.data(&caller).to_vec();
                let mut own_img = own_mem.data(&caller).to_vec();
                let n = frame
                    .transfer_argument(&caller_img, &mut own_img, dest_ptr, dest_len)
                    .map_err(trap)?;
                own_mem.data_mut(&mut caller).copy_from_slice(&own_img);
                Ok(n as i32)
            },
        )
        .unwrap();
    linker
        .func_wrap(
            "env",
            "eth2_return",
            |mut caller: Caller<'_, Host>, src_ptr: u32, src_len: u32| -> Result<
                i32,
                wasmi::Error,
            > {
                let frame = rt(&caller).top_frame().map_err(trap)?;
                let own_mem = rt(&caller).root_memory();
                let own_img = own_mem.data(&caller).to_vec();
                let mut parent_img = frame.memory.data(&caller).to_vec();
                let n = frame
                    .transfer_return(&own_img, &mut parent_img, src_ptr, src_len)
                    .map_err(trap)?;
                frame.memory.data_mut(&mut caller).copy_from_slice(&parent_img);
                Ok(n as i32)
            },
        )
        .unwrap();
    linker
        .func_wrap("env", "print", |_caller: Caller<'_, Host>, _ptr: u32, _len: u32| {})
        .unwrap();
    linker
}

/// One block's execution: the script module instantiated against the
/// root-side import table, its host calls served from the verified runtime.
struct BlockRunner {
    store: wasmi::Store<Host>,
    instance: wasmi::Instance,
}

impl BlockRunner {
    fn new(code: &[u8], data: &[u8], pre_root: [u8; 32]) -> BlockRunner {
        assert!(data.len() <= ewasm::BLOCK_DATA_LIMIT, "block data too large");
        let engine = wasmi::Engine::default();
        let mut store: wasmi::Store<Host> = wasmi::Store::new(&engine, None);
        let module = wasmi::Module::new(&engine, code).expect("Module loading to succeed");
        let linker = root_linker(&engine);
        let instance = linker
            .instantiate_and_start(&mut store, &module)
            .expect("Module instantiation expected to succeed");
        let memory = instance
            .get_memory(&store, "memory")
            .expect("Module expected to have 'memory' export");
        *store.data_mut() = Some(RootRuntime::new(data.to_vec(), pre_root, instance, memory));
        BlockRunner { store, instance }
    }
}

impl Execute for BlockRunner {
    fn execute(&mut self) -> [u8; 32] {
        let main = self
            .instance
            .get_typed_func::<(), ()>(&self.store, "main")
            .expect("Executed 'main'");
        main.call(&mut self.store, ()).expect("Executed 'main'");
        self.store.data().as_ref().expect("runtime present").post_root()
    }
}

fn escape(bytes: &[u8]) -> String {
    let mut out = String::new();
    for b in bytes {
        out.push_str(&format!("\\{:02x}", b));
    }
    out
}

fn build_root(n: u8) -> [u8; 32] {
    let mut ret = [0u8; 32];
    ret[0] = n;
    ret
}

fn compile_wat(code: &str) -> Vec<u8> {
    wat::parse_str(
        [
            r#"
            (module
                    (import "env" "eth2_savePostStateRoot" (func $save_post_root (param i32)))
                    (import "env" "eth2_loadPreStateRoot" (func $load_pre_root (param i32)))
                    (import "env" "eth2_blockDataSize" (func $block_data_size (result i32)))
                    (import "env" "eth2_blockDataCopy" (func $block_data_copy (param i32) (param i32) (param i32)))
                    (import "env" "eth2_bufferGet" (func $buffer_get (param i32) (param i32) (param i32) (result i32)))
                    (import "env" "eth2_bufferSet" (func $buffer_set (param i32) (param i32) (param i32)))
                    (import "env" "eth2_bufferMerge" (func $buffer_merge (param i32) (param i32)))
                    (import "env" "eth2_bufferClear" (func $buffer_clear (param i32)))
                    (memory (export "memory") 1)
                    (func $main (export "main")
            "#,
            code,
            r#"))"#,
        ]
        .concat(),
    )
    .unwrap()
}

#[test]
fn save_post_root() {
    let code = compile_wat(
        r#"
            (i32.store (i32.const 0) (i32.const 42))
            (call $save_post_root (i32.const 0))
        "#,
    );

    let mut runtime = BlockRunner::new(&code, &[], [0u8; 32]);
    let post_root = runtime.execute();
    assert_eq!(post_root, build_root(42));
}

#[test]
fn post_root_stays_zero_without_a_save() {
    let code = compile_wat("(nop)");

    let mut runtime = BlockRunner::new(&code, &[], build_root(42));
    let post_root = runtime.execute();
    assert_eq!(post_root, [0u8; 32]);
}

#[test]
fn load_pre_root() {
    let code = compile_wat(
        r#"
            (call $load_pre_root (i32.const 0))
            (call $save_post_root (i32.const 0))
        "#,
    );

    let mut runtime = BlockRunner::new(&code, &[], build_root(42));
    let post_root = runtime.execute();
    assert_eq!(post_root, build_root(42));
}

#[test]
fn host_functions_block_data_size() {
    let code = compile_wat(
        r#"
            ;; This stores the result of $block_data_size into memory address 0.
            (i32.store (i32.const 0) (call $block_data_size))
            (call $save_post_root (i32.const 0))
        "#,
    );

    let mut runtime = BlockRunner::new(&code, &[0u8; 42], build_root(42));
    let post_root = runtime.execute();
    assert_eq!(post_root, build_root(42));
}

#[test]
fn host_functions_block_data_copy() {
    let code = compile_wat(
        r#"
            (call $block_data_copy (i32.const 0) (i32.const 0) (i32.const 32))
            (call $save_post_root (i32.const 0))
        "#,
    );

    let block_data = build_root(42);
    let mut runtime = BlockRunner::new(&code, &block_data, [0u8; 32]);
    let post_root = runtime.execute();
    assert_eq!(post_root, build_root(42));
}

#[test]
fn buffer_get_and_set() {
    let code = compile_wat(
        r#"
            (i32.store (i32.const 32) (i32.const 42))
            (call $buffer_set (i32.const 0) (i32.const 0) (i32.const 32))
            (call $buffer_get (i32.const 0) (i32.const 0) (i32.const 64))
            (drop)
            (call $save_post_root (i32.const 64))
        "#,
    );

    let mut runtime = BlockRunner::new(&code, &[], [0u8; 32]);
    let post_root = runtime.execute();
    assert_eq!(post_root, build_root(42));
}

#[test]
fn host_functions_buffer_merge() {
    let code = compile_wat(
        r#"
            (i32.store (i32.const 0) (i32.const 1))
            (i32.store (i32.const 32) (i32.const 1))

            (i32.store (i32.const 64) (i32.const 2))
            (i32.store (i32.const 96) (i32.const 2))

            (i32.store (i32.const 128) (i32.const 2))
            (i32.store (i32.const 160) (i32.const 3))

            (i32.store (i32.const 192) (i32.const 4))
            (i32.store (i32.const 224) (i32.const 4))

            (call $buffer_set (i32.const 0) (i32.const 0) (i32.const 32))
            (call $buffer_set (i32.const 0) (i32.const 64) (i32.const 96))
            (call $buffer_set (i32.const 1) (i32.const 128) (i32.const 160))
            (call $buffer_set (i32.const 1) (i32.const 192) (i32.const 224))

            (call $buffer_merge (i32.const 0) (i32.const 1))

            (call $buffer_get (i32.const 0) (i32.const 0) (i32.const 256))
            (call $buffer_get (i32.const 0) (i32.const 64) (i32.const 288))
            (call $buffer_get (i32.const 0) (i32.const 192) (i32.const 310))

            (drop)
            (drop)
            (drop)

            ;; Store the result of buffer[0,1] + buffer[0,2] + buffer[0,4] at mem[342]
            (i32.store
                (i32.const 342)
                (i32.add
                    (i32.add (i32.load (i32.const 256)) (i32.load (i32.const 288)))
                    (i32.add (i32.load (i32.const 310)) (i32.const 0))
                )
            )

            (call $save_post_root (i32.const 342))
        "#,
    );

    let mut runtime = BlockRunner::new(&code, &[], [0u8; 32]);
    let post_root = runtime.execute();

    // The post root should be 1 + 3 + 4 = 8
    assert_eq!(post_root, build_root(8));
}

#[test]
fn host_functions_buffer_clear() {
    let code = compile_wat(
        r#"
            (i32.store (i32.const 0) (i32.const 2))
            (i32.store (i32.const 32) (i32.const 2))

            (i32.store (i32.const 64) (i32.const 1))
            (i32.store (i32.const 96) (i32.const 1))

            (call $buffer_set (i32.const 0) (i32.const 0) (i32.const 32))
            (call $buffer_set (i32.const 1) (i32.const 64) (i32.const 96))

            (call $buffer_clear (i32.const 1))

            (call $buffer_get (i32.const 0) (i32.const 0) (i32.const 128))
            (call $buffer_get (i32.const 1) (i32.const 64) (i32.const 160))

            (drop)
            (drop)

            ;; Store the result of buffer[0,1] + buffer[1,2] at mem[192]
            (i32.store
                (i32.const 192)
                (i32.sub (i32.load (i32.const 128)) (i32.load (i32.const 160)))
            )

            (call $save_post_root (i32.const 192))
        "#,
    );

    let mut runtime = BlockRunner::new(&code, &[], [0u8; 32]);
    let post_root = runtime.execute();

    // The post root should be 2 - 0 = 2
    assert_eq!(post_root, build_root(2));
}

fn compile_child_wat(child_code: &str) -> Vec<u8> {
    let child_asm = wat::parse_str(child_code).unwrap();

    wat::parse_str(format!(
        r#"
        (module
            (import "env" "eth2_loadModule" (func $load (param i32) (param i32) (param i32)))
            (import "env" "eth2_expose" (func $expose (param i32) (param i32)))
            (import "env" "eth2_return" (func $return (param i32) (param i32) (result i32)))
            (import "env" "eth2_argument" (func $argument (param i32) (param i32) (result i32)))
            (import
                "env"
                "eth2_callModule"
                (func
                    $call
                    (param i32)
                    (param i32)
                    (param i32)
                    (param i32)
                    (param i32)
                    (param i32)
                    (param i32)
                    (result i32)))

            (memory (export "memory") 1)
            (data (i32.const 0) "some_func")
            (data (i32.const 10) "main")
            (data (i32.const 22) "{}")
            (func $some_func
                (export "some_func")
                (result i32)

                (; Read the argument, and check the result ;)
                (drop (call $argument (i32.const 89) (i32.const 4)))
                (if (i32.ne (i32.load (i32.const 89)) (i32.const 9999))
                    (then (unreachable)))

                (; Return a value to the caller ;)
                (i32.store (i32.const 99) (i32.const 8888))
                (drop (call $return (i32.const 99) (i32.const 4)))

                (i32.const 6654))

            (func $main (export "main")
                (call $expose (i32.const 0) (i32.const 9))
                (call $load (i32.const 0) (i32.const 22) (i32.const {}))
                (i32.store (i32.const 14) (i32.const 1234))
                (drop
                    (call
                        $call
                        (i32.const 0)   (; Slot ;)
                        (i32.const 10)  (; Name Offset ;)
                        (i32.const 4)   (; Name Length ;)
                        (i32.const 14)  (; Argument Offset ;)
                        (i32.const 4)   (; Argument Length ;)
                        (i32.const 18)  (; Return Offset ;)
                        (i32.const 4)   (; Return Length ;)
                    )
                )

                (; Check the returned buffer from the child runtime ;)
                (if
                    (i32.ne (i32.load (i32.const 18)) (i32.const 4321))
                    (then (unreachable)))
            )
        )
        "#,
        escape(&child_asm),
        child_asm.len(),
    ))
    .unwrap()
}

#[test]
fn call() {
    let child_code = r#"
    (module
        (import
            "env"
            "eth2_return"
            (func
                $eth2_return
                (param i32)
                (param i32)
                (result i32)))
        (import
            "env"
            "eth2_argument"
            (func
                $eth2_argument
                (param i32)
                (param i32)
                (result i32)))
        (import
            "env"
            "eth2_call"
            (func
                $eth2_call
                (param i32)
                (param i32)
                (param i32)
                (param i32)
                (param i32)
                (param i32)
                (result i32)))
        (memory (export "memory") 1)
        (data (i32.const 0) "some_func")
        (func $main (export "main") (result i32) (local $x i32)
            (; Check that the argument provided by the caller is 1234 ;)
            (drop (call $eth2_argument (i32.const 10) (i32.const 4)))
            (if
                (i32.ne (i32.load (i32.const 10)) (i32.const 1234))
                (then (unreachable)))

            (; Return a value to the caller ;)
            (i32.store (i32.const 10) (i32.const 4321))
            (drop (call $eth2_return (i32.const 10) (i32.const 4)))

            (i32.store (i32.const 10) (i32.const 9999))
            (local.set $x
                (call
                    $eth2_call
                    (i32.const 0)
                    (i32.const 9)
                    (i32.const 10)
                    (i32.const 4)
                    (i32.const 15)
                    (i32.const 4)))
            (if
                (i32.ne (local.get $x) (i32.const 6654))
                (then (unreachable)))
            (if
                (i32.ne (i32.load (i32.const 15)) (i32.const 8888))
                (then (unreachable))
            )

            (i32.const 6301)
        )
    )
    "#;

    let code = compile_child_wat(child_code);

    let mut runtime = BlockRunner::new(&code, &[], [0u8; 32]);
    runtime.execute();
}
