use espflashtool::protocol::{
    change_baud_command, flash_defl_end_command, flash_end_command, is_download_banner,
    mem_end_command, read_deadline_ms, reset_steps, spi_set_params_command, write_reg_command,
    ConnectAction, ConnectEvent, ConnectMachine, ConnectPhase, ResetStep,
};
use espflashtool::command::Command;
use espflashtool::Error;

#[test]
fn test_read_deadline_floor() {
    assert_eq!(read_deadline_ms(0), 10);
    assert_eq!(read_deadline_ms(7), 10);
    assert_eq!(read_deadline_ms(2500), 2500);
}

#[test]
fn test_download_banner() {
    assert!(is_download_banner(b"waiting for download\r\n"));
    assert!(!is_download_banner(b"waiting for download"));
    assert!(!is_download_banner(b"ets Jun  8 2016 00:22:57\r\n"));
}

#[test]
fn test_reset_steps() {
    assert_eq!(
        reset_steps(true),
        vec![
            ResetStep::SetRts(true),
            ResetStep::SetDtr(false),
            ResetStep::SleepMs(100),
            ResetStep::FlushInput,
            ResetStep::SetDtr(true),
            ResetStep::SetRts(false),
            ResetStep::SleepMs(500),
            ResetStep::SetDtr(false),
        ]
    );
    assert_eq!(reset_steps(false)[4], ResetStep::SetDtr(false));
}

#[test]
fn test_command_conventions() {
    assert_eq!(
        write_reg_command(0x3FF42000, 7),
        Command::WriteReg { address: 0x3FF42000, value: 7, mask: 0xFFFFFFFF, delay: 0 }
    );
    assert_eq!(
        spi_set_params_command(0x400000),
        Command::SpiSetParams {
            id: 0,
            total_size: 0x400000,
            block_size: 0x10000,
            sector_size: 0x1000,
            page_size: 0x100,
            status_mask: 0xFFFF,
        }
    );
    // Against ROM the old rate is encoded as zero; against the stub it
    // is the current port rate.
    assert_eq!(
        change_baud_command(true, 921600, 115200),
        Command::ChangeBaudRate { new_rate: 921600, old_rate: 0 }
    );
    assert_eq!(
        change_baud_command(false, 921600, 115200),
        Command::ChangeBaudRate { new_rate: 921600, old_rate: 115200 }
    );
    // 0 on the wire means reboot; 1 means stay.
    assert_eq!(flash_end_command(true), Command::FlashEnd { reboot: 0 });
    assert_eq!(flash_end_command(false), Command::FlashEnd { reboot: 1 });
    assert_eq!(flash_defl_end_command(true), Command::FlashDeflEnd { reboot: 0 });
    assert_eq!(
        mem_end_command(true, 0x4009F000),
        Command::MemEnd { execute: 0, entry_point: 0x4009F000 }
    );
}

#[test]
fn test_connect_sync_scenario() {
    // After a reset, the banner arrives, one Sync answers, and the
    // following read timeout marks success.
    let mut m = ConnectMachine::new();
    assert_eq!(m.step(ConnectEvent::ResetDone), ConnectAction::ReadLine);
    assert_eq!(
        m.step(ConnectEvent::Line(b"boot: something\r\n".to_vec())),
        ConnectAction::ReadLine
    );
    assert_eq!(
        m.step(ConnectEvent::Line(b"waiting for download\r\n".to_vec())),
        ConnectAction::SendSync
    );
    assert_eq!(m.step(ConnectEvent::SyncResponse), ConnectAction::ReadResponse);
    assert_eq!(m.step(ConnectEvent::SyncTimeout), ConnectAction::Succeed);
    assert_eq!(m.phase, ConnectPhase::Connected);
}

#[test]
fn test_connect_retries_sync_attempts() {
    let mut m = ConnectMachine::new();
    m.step(ConnectEvent::ResetDone);
    m.step(ConnectEvent::Line(b"waiting for download\r\n".to_vec()));
    // Nine Sync attempts time out without any response; each is retried.
    for _ in 0..9 {
        assert_eq!(m.step(ConnectEvent::SyncTimeout), ConnectAction::SendSync);
    }
    // The tenth failure exhausts the handshake.
    assert_eq!(m.step(ConnectEvent::SyncTimeout), ConnectAction::Fail(Error::Timeout));
    assert_eq!(m.phase, ConnectPhase::Failed);
}

#[test]
fn test_connect_rounds_exhausted() {
    let mut m = ConnectMachine::new();
    for round in 0..10 {
        assert_eq!(m.step(ConnectEvent::ResetDone), ConnectAction::ReadLine);
        for _ in 0..9 {
            assert_eq!(m.step(ConnectEvent::LineTimeout), ConnectAction::ReadLine);
        }
        let action = m.step(ConnectEvent::LineTimeout);
        if round < 9 {
            assert_eq!(action, ConnectAction::Reset);
        } else {
            assert_eq!(action, ConnectAction::Fail(Error::Timeout));
        }
    }
    assert_eq!(m.phase, ConnectPhase::Failed);
}

#[test]
fn test_connect_aborts_on_real_error() {
    let mut m = ConnectMachine::new();
    m.step(ConnectEvent::ResetDone);
    m.step(ConnectEvent::Line(b"waiting for download\r\n".to_vec()));
    assert_eq!(
        m.step(ConnectEvent::SyncError(Error::Transport)),
        ConnectAction::Fail(Error::Transport)
    );
}
