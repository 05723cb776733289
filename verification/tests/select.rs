use rmesg::entry::Entry;
use rmesg::error::RMesgError;
use rmesg::kmsgfile::{kmsg, DeviceRead, KMsgEntriesIter, LineRead};
use rmesg::{advance, begin, klog_entries_only_if_timestamp_enabled, Answer, Backend, Request, Step};

const SAMPLE: &str = "5,0,0,-;Linux version 4.14.131-linuxkit
6,1,0,-;Command, line: BOOT_IMAGE=/boot/kernel console=ttyS0
 LINE2=foobar
6,2,0,-;x86/fpu: Supporting XSAVE feature 0x001: 'x87 floating point registers'
6,3,0,-,more,deets;x86/fpu: Supporting XSAVE; feature 0x002: 'SSE registers'
6,4,1070,-;x86/fpu: Supporting XSAVE feature 0x004: 'AVX registers'
6,5,1073,-;x86/fpu: xstate_offset[2]:  576, xstate_sizes[2]:  256
6,6,1075,-;x86/fpu: Enabled xstate features 0x7, context size is 832 bytes
6,7,1078,-;e820: BIOS-provided physical RAM map:
6,8,1080,-;BIOS-e820: [mem 0x0000000000000000-0x000000000009fbff] usable
6,9,1083,-;BIOS-e820: [mem 0x000000000009fc00-0x000000000009ffff] reserved
6,10,1085,-;BIOS-e820: [mem 0x00000000000f0000-0x00000000000fffff] reserved
4,11,91650777797,-;docker0: port 2(veth98d5024) entered disabled state
";

/// What the backends would answer, and what was asked of them.
struct Backends<T> {
    device: Option<Result<T, RMesgError>>,
    timestamps: Option<Result<bool, RMesgError>>,
    syscall: Option<Result<T, RMesgError>>,
    asked: Vec<&'static str>,
    notices: Vec<String>,
}

fn backends<T>(
    device: Result<T, RMesgError>,
    timestamps: Result<bool, RMesgError>,
    syscall: Result<T, RMesgError>,
) -> Backends<T> {
    Backends {
        device: Some(device),
        timestamps: Some(timestamps),
        syscall: Some(syscall),
        asked: Vec::new(),
        notices: Vec::new(),
    }
}

/// Serves a request the way a caller does: performs each step and hands back what
/// came of it.
fn serve<T>(backend: Backend, request: Request, world: &mut Backends<T>) -> Result<T, RMesgError> {
    let mut step = begin(backend, request);
    loop {
        let answer = match step {
            Step::Device => {
                world.asked.push("device");
                Answer::Device(world.device.take().unwrap())
            }
            Step::Notice(text) => {
                world.notices.push(text);
                Answer::Noticed
            }
            Step::Timestamps => {
                world.asked.push("timestamps");
                Answer::Timestamps(world.timestamps.take().unwrap())
            }
            Step::Syscall => {
                world.asked.push("syscall");
                Answer::Syscall(world.syscall.take().unwrap())
            }
            Step::Done(result) => return result,
        };
        step = advance(backend, request, answer);
    }
}

fn open_failed() -> RMesgError {
    RMesgError::DevKMsgFileOpenError("Unable to open file /dev/kmsg: gone".to_owned())
}

fn not_permitted() -> RMesgError {
    RMesgError::OperationNotPermitted("Open File /dev/kmsg".to_owned())
}

#[test]
fn test_log_entries() {
    let mut world = backends(
        kmsg(None, DeviceRead::Read(SAMPLE.to_owned())),
        Ok(true),
        Ok(Vec::<Entry>::new()),
    );
    let entries = serve(Backend::Default, Request::Entries, &mut world);
    assert!(entries.is_ok(), "Response from kmsg not Ok");
    assert!(!entries.unwrap().is_empty(), "Should have non-empty logs");
}

#[test]
fn lib_test_iterator() {
    // Don't clear the buffer. Poll every second.
    let mut world = backends(
        KMsgEntriesIter::with_options(None, false, Ok(())),
        Ok(true),
        Err(RMesgError::KLogTimestampsDisabled),
    );
    let iterator_result = serve(Backend::Default, Request::Iter, &mut world);
    assert!(iterator_result.is_ok());

    let mut iterator = iterator_result.unwrap();

    // Read 10 lines and quit
    let mut lines = SAMPLE.lines();
    let mut count = 0;
    while let Some(entry) = iterator.next(match lines.next() {
        Some(line) => LineRead::Line(line.to_owned()),
        None => LineRead::End,
    }) {
        assert!(entry.is_ok());
        if count > 10 {
            break;
        }
        count += 1;
    }
    assert!(count > 10);
    assert_eq!(world.asked, vec!["device"]);
}

#[test]
fn device_only_never_turns_to_the_syscall() {
    for request in [Request::Entries, Request::Raw, Request::Iter] {
        for device in [Ok(1), Err(open_failed()), Err(not_permitted()), Err(RMesgError::IOError("x".to_owned()))] {
            let mut world = backends(device.clone(), Ok(true), Ok(2));
            assert_eq!(serve(Backend::DevKMsg, request, &mut world), device);
            assert_eq!(world.asked, vec!["device"]);
            assert!(world.notices.is_empty());
        }
    }
}

#[test]
fn syscall_only_never_turns_to_the_device() {
    for request in [Request::Entries, Request::Raw] {
        for syscall in [Ok(2), Err(not_permitted()), Err(open_failed())] {
            let mut world = backends(Ok(1), Ok(false), syscall.clone());
            assert_eq!(serve(Backend::KLogCtl, request, &mut world), syscall);
            assert_eq!(world.asked, vec!["syscall"]);
            assert!(world.notices.is_empty());
        }
    }
    let mut world = backends(Ok(1), Ok(true), Ok(2));
    assert_eq!(serve(Backend::KLogCtl, Request::Iter, &mut world), Ok(2));
    assert_eq!(world.asked, vec!["timestamps", "syscall"]);
}

#[test]
fn default_keeps_what_the_device_gave() {
    for request in [Request::Entries, Request::Raw, Request::Iter] {
        let mut world = backends(Ok(1), Ok(true), Ok(2));
        assert_eq!(serve(Backend::Default, request, &mut world), Ok(1));
        assert_eq!(world.asked, vec!["device"]);
        assert!(world.notices.is_empty());
    }
}

#[test]
fn default_falls_back_when_the_device_cannot_be_opened() {
    for request in [Request::Entries, Request::Raw] {
        let mut world = backends(Err(open_failed()), Ok(false), Ok(2));
        assert_eq!(serve(Backend::Default, request, &mut world), Ok(2));
        assert_eq!(world.asked, vec!["device", "syscall"]);
        assert_eq!(
            world.notices,
            vec![
                "Falling back from device file to klogctl syscall due to error: Unable to open file /dev/kmsg: gone"
                    .to_owned()
            ]
        );
    }
    let mut world = backends(Err(open_failed()), Ok(true), Ok(2));
    assert_eq!(serve(Backend::Default, Request::Iter, &mut world), Ok(2));
    assert_eq!(world.asked, vec!["device", "timestamps", "syscall"]);
    assert_eq!(world.notices.len(), 1);

    let mut world = backends(Err(open_failed()), Ok(true), Err::<i32, RMesgError>(not_permitted()));
    assert_eq!(serve(Backend::Default, Request::Raw, &mut world), Err(not_permitted()));
    assert_eq!(world.asked, vec!["device", "syscall"]);
}

#[test]
fn default_does_not_fall_back_on_any_other_error() {
    for request in [Request::Entries, Request::Raw, Request::Iter] {
        for e in [
            not_permitted(),
            RMesgError::IOError("Unable to read from file /dev/kmsg: x".to_owned()),
            RMesgError::EntryParsingError("bad".to_owned()),
            RMesgError::KLogTimestampsDisabled,
        ] {
            let mut world = backends(Err(e.clone()), Ok(true), Ok(2));
            assert_eq!(serve(Backend::Default, request, &mut world), Err(e));
            assert_eq!(world.asked, vec!["device"]);
            assert!(world.notices.is_empty());
        }
    }
}

#[test]
fn no_iterator_over_the_syscall_without_timestamps() {
    let mut world = backends(Ok(1), Ok(false), Ok(2));
    assert_eq!(
        serve(Backend::KLogCtl, Request::Iter, &mut world),
        Err(RMesgError::KLogTimestampsDisabled)
    );
    assert_eq!(world.asked, vec!["timestamps"]);

    let mut world = backends(Err(open_failed()), Ok(false), Ok(2));
    assert_eq!(
        serve(Backend::Default, Request::Iter, &mut world),
        Err(RMesgError::KLogTimestampsDisabled)
    );
    assert_eq!(world.asked, vec!["device", "timestamps"]);
    assert_eq!(world.notices.len(), 1);

    let unreadable = RMesgError::IOError("cannot read the switch".to_owned());
    let mut world = backends(Ok(1), Err(unreadable.clone()), Ok(2));
    assert_eq!(serve(Backend::KLogCtl, Request::Iter, &mut world), Err(unreadable));
    assert_eq!(world.asked, vec!["timestamps"]);
}

#[test]
fn refused_open_does_not_fall_back() {
    for code in [libc::EPERM, libc::EACCES] {
        let refused = rmesg::error::OsFailure { code: Some(code), text: "refused".to_owned() };
        let mut world = backends(
            kmsg(None, DeviceRead::OpenFailed(refused.clone())),
            Ok(true),
            Ok(Vec::<Entry>::new()),
        );
        assert_eq!(serve(Backend::Default, Request::Entries, &mut world), Err(not_permitted()));
        assert_eq!(world.asked, vec!["device"]);
        assert!(world.notices.is_empty());

        let mut world = backends(
            KMsgEntriesIter::with_options(None, false, Err(refused)),
            Ok(true),
            Err(RMesgError::KLogTimestampsDisabled),
        );
        assert_eq!(serve(Backend::Default, Request::Iter, &mut world), Err(not_permitted()));
        assert_eq!(world.asked, vec!["device"]);
    }
    let missing = rmesg::error::OsFailure {
        code: Some(libc::ENOENT),
        text: "No such file or directory".to_owned(),
    };
    let mut world = backends(
        kmsg(None, DeviceRead::OpenFailed(missing)),
        Ok(true),
        Ok(Vec::<Entry>::new()),
    );
    assert_eq!(serve(Backend::Default, Request::Entries, &mut world), Ok(Vec::new()));
    assert_eq!(world.asked, vec!["device", "syscall"]);
    assert_eq!(world.notices.len(), 1);
}

#[test]
fn timestamp_gate() {
    assert_eq!(klog_entries_only_if_timestamp_enabled(Ok(true)), Ok(()));
    assert_eq!(
        klog_entries_only_if_timestamp_enabled(Ok(false)),
        Err(RMesgError::KLogTimestampsDisabled)
    );
    assert_eq!(klog_entries_only_if_timestamp_enabled(Err(not_permitted())), Err(not_permitted()));
}

#[test]
fn single_steps() {
    assert_eq!(begin::<u8>(Backend::Default, Request::Entries), Step::Device);
    assert_eq!(begin::<u8>(Backend::DevKMsg, Request::Iter), Step::Device);
    assert_eq!(begin::<u8>(Backend::KLogCtl, Request::Raw), Step::Syscall);
    assert_eq!(begin::<u8>(Backend::KLogCtl, Request::Entries), Step::Syscall);
    assert_eq!(begin::<u8>(Backend::KLogCtl, Request::Iter), Step::Timestamps);
    assert_eq!(
        advance::<u8>(Backend::Default, Request::Raw, Answer::Device(Err(open_failed()))),
        Step::Notice(
            "Falling back from device file to klogctl syscall due to error: Unable to open file /dev/kmsg: gone"
                .to_owned()
        )
    );
    assert_eq!(
        advance::<u8>(Backend::DevKMsg, Request::Raw, Answer::Device(Err(open_failed()))),
        Step::Done(Err(open_failed()))
    );
    assert_eq!(advance::<u8>(Backend::Default, Request::Raw, Answer::Noticed), Step::Syscall);
    assert_eq!(advance::<u8>(Backend::Default, Request::Entries, Answer::Noticed), Step::Syscall);
    assert_eq!(advance::<u8>(Backend::Default, Request::Iter, Answer::Noticed), Step::Timestamps);
    assert_eq!(
        advance::<u8>(Backend::Default, Request::Iter, Answer::Timestamps(Ok(true))),
        Step::Syscall
    );
    assert_eq!(
        advance::<u8>(Backend::Default, Request::Iter, Answer::Timestamps(Ok(false))),
        Step::Done(Err(RMesgError::KLogTimestampsDisabled))
    );
    assert_eq!(
        advance(Backend::Default, Request::Iter, Answer::Syscall(Ok(7u8))),
        Step::Done(Ok(7u8))
    );
    assert_eq!(
        advance(Backend::KLogCtl, Request::Raw, Answer::Syscall(Err::<u8, RMesgError>(not_permitted()))),
        Step::Done(Err(not_permitted()))
    );
}
