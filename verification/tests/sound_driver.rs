use dsvita::hle::sound_nitro::{
    archive_wave_addr, calc_rate, decode_cmd, decode_note_op, instrument_channels, instrument_wave_addr, note_op_of, var_param,
    var_test_holds, NoteInstr, NoteOperand, var_update_value, NoteOp, SeqPrepared,
    SoundCmd, SoundNitro, TrackAction, WaveHeader, NO_TRACK,
};

fn driver() -> SoundNitro {
    let mut d = SoundNitro::new();
    d.reset(&[0x41, 0x42, 0x43]);
    d
}

#[test]
fn envelope_rates_follow_the_table() {
    assert_eq!(calc_rate(0x7F), 0xFFFF);
    assert_eq!(calc_rate(0x7E), 0x3C00);
    assert_eq!(calc_rate(0), 1);
    assert_eq!(calc_rate(0x31), 0x63);
    assert_eq!(calc_rate(0x32), 0x1E00 / (0x7E - 0x32));
    assert_eq!(calc_rate(0x7D), 0x1E00);
    // Past 126 the distance is negative and the quotient keeps its low bits.
    assert_eq!(calc_rate(0x80), 0x10000 - 0x1E00 / 2);
    assert_eq!(calc_rate(0xFF), 0x10000 - 0x1E00 / 0x81);
}

#[test]
fn reset_numbers_records_and_picks_command_layout() {
    let d = driver();
    for (i, c) in d.channels.iter().enumerate() {
        assert_eq!(c.id as usize, i);
        assert_eq!(c.status_flags, 0);
    }
    for (i, q) in d.sequences.iter().enumerate() {
        assert_eq!(q.id as usize, i);
    }
    assert_eq!(d.master_pan, -1);
    assert_eq!(d.cmd_offset, 0);
    assert!(!d.cmd_translate);

    let mut d = SoundNitro::new();
    d.reset(b"ACVE");
    assert_eq!(d.cmd_offset, 2);
    let mut d = SoundNitro::new();
    d.reset(b"AUGE");
    assert_eq!(d.cmd_offset, 3);
    let mut d = SoundNitro::new();
    d.reset(b"ARYE");
    assert_eq!(d.cmd_offset, 3);
    let mut d = SoundNitro::new();
    d.reset(b"ASME");
    assert!(d.cmd_translate);
    assert_eq!(d.cmd_offset, 0);
}

#[test]
fn messages_queue_command_lists_or_run_the_driver() {
    let mut d = driver();
    assert!(d.ipc_recv(0));
    assert!(!d.ipc_recv(0x0200_1000));
    assert!(!d.ipc_recv(0x0100_0000));
    assert!(!d.ipc_recv(0x0200_2000));
    assert_eq!(d.pop_cmd_list(), Some(0x0200_1000));
    assert_eq!(d.pop_cmd_list(), Some(0x0200_2000));
    assert_eq!(d.pop_cmd_list(), None);
}

#[test]
fn counter_is_a_linear_congruential_generator() {
    let mut d = driver();
    let r = d.update_counter();
    assert_eq!(d.counter, 0x3C6E_F35F);
    assert_eq!(r, 0x3C6E);
    let r = d.update_counter();
    let expected = 0x3C6E_F35Fu32.wrapping_mul(0x19660D).wrapping_add(0x3C6E_F35F);
    assert_eq!(d.counter, expected);
    assert_eq!(r, (expected >> 16) as u16);
}

#[test]
fn free_tracks_are_taken_in_order() {
    let mut d = driver();
    assert_eq!(d.allocate_free_track(), Some(0));
    assert_eq!(d.allocate_free_track(), Some(1));
    d.tracks[0].status_flags = 0;
    assert_eq!(d.allocate_free_track(), Some(0));
    for _ in 2..32 {
        assert!(d.allocate_free_track().is_some());
    }
    assert_eq!(d.allocate_free_track(), None);
}

#[test]
fn sequence_slots_name_tracks() {
    let mut d = driver();
    d.sequences[3].tracks = [NO_TRACK; 16];
    d.sequences[3].tracks[2] = 7;
    assert_eq!(d.get_sequence_track_id(3, 2), Some(7));
    assert_eq!(d.get_sequence_track_id(3, 1), None);
    assert_eq!(d.get_sequence_track_id(3, 16), None);
}

#[test]
fn channel_allocation_prefers_low_priority_then_quiet() {
    let mut d = driver();
    for c in d.channels.iter_mut() {
        c.priority = 50;
        c.volume = 100;
    }
    // Channel 6 is quieter than the rest at the same priority.
    d.channels[6].volume = 10;
    assert_eq!(d.allocate_channel(0xFFFF, 60, false, 3), Some(6));
    let c = d.channels[6];
    assert_eq!(c.priority, 60);
    assert!(c.linked);
    assert_eq!(c.linked_track, Some(3));
    assert_eq!(c.volume, 127);
    assert_eq!(c.attack_rate, 0);
    assert_eq!(c.decay_rate, 0xFFFF);
    assert_eq!(c.sustain_rate, 127);
    assert_eq!(c.release_rate, 0xFFFF);
    assert_eq!(c.modulation_range, 1);
    assert_eq!(c.modulation_speed, 16);
    assert_eq!(c.status_flags, 0x14);

    // With equal channels the search order decides: channel 4 comes first.
    let mut d = driver();
    assert_eq!(d.allocate_channel(0xFFFF, 0, false, 0), Some(4));
    // Channels 1 and 3 are never taken.
    let mut d = driver();
    assert_eq!(d.allocate_channel(0x000A, 127, false, 0), None);
    // A channel of higher priority than the note is not taken.
    let mut d = driver();
    for c in d.channels.iter_mut() {
        c.priority = 100;
    }
    assert_eq!(d.allocate_channel(0xFFFF, 99, false, 0), None);
}

#[test]
fn unlinking_takes_a_channel_off_its_list() {
    let mut d = driver();
    // Track 2 plays on channels 5 -> 8 -> 9.
    d.tracks[2].chan_list = Some(5);
    d.channels[5].next = Some(8);
    d.channels[8].next = Some(9);
    for id in [5usize, 8, 9] {
        d.channels[id].linked = true;
        d.channels[id].linked_track = Some(2);
        d.channels[id].priority = 40;
    }
    d.unlink_channel(8, true);
    assert_eq!(d.channels[5].next, Some(9));
    assert!(!d.channels[8].linked);
    assert_eq!(d.channels[8].linked_track, None);
    assert_eq!(d.channels[8].priority, 0);
    d.unlink_channel(5, false);
    assert_eq!(d.tracks[2].chan_list, Some(9));
    assert!(d.channels[5].linked);

    d.unlink_track_channels(2);
    assert_eq!(d.tracks[2].chan_list, None);
    assert!(!d.channels[9].linked);
    assert_eq!(d.channels[9].linked_track, None);
}

#[test]
fn released_tracks_pass_their_settings_on() {
    let mut d = driver();
    d.sequences[0].volume = 127;
    d.tracks[1].volume = 127;
    d.tracks[1].expression = 127;
    d.tracks[1].track_unk01 = 0x7F;
    d.tracks[1].pan = 10;
    d.tracks[1].track_unk09 = 5;
    d.tracks[1].pitch_bend = 64;
    d.tracks[1].pitch_bend_range = 2;
    d.tracks[1].frequency = 100;
    d.tracks[1].chan_list = Some(4);
    d.channels[4].vol_ramp_phase = 0;
    d.channels[4].note_length = 0;
    d.channels[4].priority = 30;
    d.release_track(1, 0, true);
    let c = d.channels[4];
    assert_eq!(c.vol_base3, 0);
    assert_eq!(c.freq_base3, 100 + ((64 * (2 * 64)) >> 7));
    assert_eq!(c.pan_base3, 15);
    assert_eq!(c.pan_base1, 0x7F);
    assert_eq!(c.priority, 1);
    assert_eq!(c.vol_ramp_phase, 3);

    // A releasing channel keeps its settings but the volume offset.
    d.sequences[0].volume = 0;
    d.tracks[1].frequency = 7;
    d.tracks[1].track_unk0a = -5;
    d.release_track(1, 0, false);
    let c = d.channels[4];
    assert_eq!(c.vol_base1, -5);
    assert_eq!(c.vol_base3, 0);
    assert_eq!(c.freq_base3, 100 + ((64 * (2 * 64)) >> 7));

    // Volume level 0 is silence.
    d.channels[4].vol_ramp_phase = 0;
    d.release_track(1, 0, false);
    let c = d.channels[4];
    assert_eq!(c.vol_base3, -0x8000);
    assert_eq!(c.freq_base3, 7 + ((64 * (2 * 64)) >> 7));
}

#[test]
fn finishing_a_sequence_frees_its_tracks() {
    let mut d = driver();
    let t = d.allocate_free_track().unwrap();
    d.sequences[2].tracks = [NO_TRACK; 16];
    d.sequences[2].tracks[0] = t;
    d.sequences[2].status_flags = 3;
    d.tracks[t].chan_list = Some(7);
    d.channels[7].status_flags = 1;
    d.channels[7].linked = true;
    d.channels[7].linked_track = Some(t);
    d.finish_sequence(2);
    assert_eq!(d.sequences[2].tracks, [NO_TRACK; 16]);
    assert_eq!(d.sequences[2].status_flags, 2);
    assert_eq!(d.tracks[t].status_flags & 1, 0);
    assert_eq!(d.tracks[t].chan_list, None);
    let c = d.channels[7];
    assert!(!c.linked);
    assert_eq!(c.priority, 1);
    assert_eq!(c.vol_ramp_phase, 3);
}

#[test]
fn volume_envelope_steps_through_its_phases() {
    let mut d = driver();
    d.channels[0].base_volume = -92544;
    d.channels[0].attack_rate = 0;
    assert_eq!(d.channel_volume_ramp(0, true), 0);
    assert_eq!(d.channels[0].vol_ramp_phase, 1);
    d.channels[0].decay_rate = 0x1000;
    d.channels[0].sustain_rate = 0;
    assert_eq!(d.channel_volume_ramp(0, true), -0x1000 >> 7);
    assert_eq!(d.channels[0].vol_ramp_phase, 1);
    d.channels[0].sustain_rate = 0x7E;
    d.channel_volume_ramp(0, true);
    assert_eq!(d.channels[0].vol_ramp_phase, 2);
    assert_eq!(d.channels[0].base_volume, -0x0001 * 128);
    d.channels[0].vol_ramp_phase = 3;
    d.channels[0].release_rate = 0x100;
    assert_eq!(d.channel_volume_ramp(0, true), (-128 - 0x100) >> 7);
    // Without an update the level is only read.
    assert_eq!(d.channel_volume_ramp(0, false), (-128 - 0x100) >> 7);
}

#[test]
fn pitch_sweep_and_modulation() {
    let mut d = driver();
    d.channels[2].freq_ramp_target = -100;
    d.channels[2].freq_ramp_len = 3;
    d.channels[2].freq_ramp_pos = 1;
    d.channels[2].status_flags = 4;
    assert_eq!(d.channel_freq_ramp(2, true), -66);
    assert_eq!(d.channels[2].freq_ramp_pos, 2);
    assert_eq!(d.channel_freq_ramp(2, false), -33);
    d.channels[2].freq_ramp_pos = 3;
    assert_eq!(d.channel_freq_ramp(2, true), 0);

    d.channels[3].modulation_depth = 10;
    d.channels[3].modulation_range = 1;
    d.channels[3].modulation_speed = 16;
    d.channels[3].modulation_count2 = 8 << 8;
    d.channels[3].modulation_type = 0;
    // Wave value 0x31 at phase 8.
    assert_eq!(d.channel_modulation(3, true), ((0x31i64 * 10 * 64) >> 14) as i32);
    assert_eq!(d.channels[3].modulation_count2, (8 << 8) + 16 * 64);
    d.channels[3].modulation_count2 = 0x7FC0;
    d.channel_modulation(3, true);
    assert_eq!(d.channels[3].modulation_count2, (0x7FC0 + 1024) % 0x8000);
    d.channels[3].modulation_delay = 5;
    d.channels[3].modulation_count1 = 0;
    assert_eq!(d.channel_modulation(3, true), 0);
    assert_eq!(d.channels[3].modulation_count1, 1);
}

#[test]
fn alarms_ring_once_or_repeat() {
    let mut d = driver();
    d.set_alarm(9, 10, 0, 0x1AB);
    assert_eq!(d.alarms[1].param, 0xAB);
    assert_eq!(d.on_alarm(1), None);
    let started = d.start_alarms(0b10);
    assert_eq!(started, vec![(1u16, 0u32)]);
    assert_eq!(d.on_alarm(1), Some((1 | (0xAB << 8), None)));
    assert!(!d.alarms[1].active);

    d.set_alarm(2, 10, 20, 5);
    let started = d.start_alarms(0b100);
    assert_eq!(started, vec![(2u16, 640u32)]);
    assert_eq!(d.on_alarm(2), Some((2 | (5 << 8), Some(1280))));
    assert!(d.alarms[2].active);
    d.stop_alarms(0b100);
    assert!(!d.alarms[2].active);
}

#[test]
fn parameter_commands_reach_sequences_and_tracks() {
    let mut d = driver();
    d.set_sequence_param(1, 0x218, 0x1234_5678);
    assert_eq!(d.sequences[1].tempo, 0x5678);
    d.set_sequence_param(1, 0x105, 0x1FF);
    assert_eq!(d.sequences[1].volume, 0xFF);
    d.set_sequence_param(1, 0x999, 1);
    assert_eq!(d.sequences[1].tempo, 0x5678);

    d.sequences[1].tracks = [NO_TRACK; 16];
    d.sequences[1].tracks[0] = 4;
    d.sequences[1].tracks[3] = 9;
    d.set_track_param(1, 0b1001, 0x108, 0xF0);
    assert_eq!(d.tracks[4].pan, -16);
    assert_eq!(d.tracks[9].pan, -16);
    d.set_track_param(1, 0b0001, 0x20C, 0x1_8000);
    assert_eq!(d.tracks[4].frequency, -0x8000);
    assert_eq!(d.tracks[9].frequency, 0);
    d.set_track_channel_mask(1, 0b1000, 0x00F0);
    assert_eq!(d.tracks[9].channel_mask, 0x00F0);
    assert_eq!(d.tracks[9].status_flags & 0x80, 0x80);
    assert_eq!(d.tracks[4].status_flags & 0x80, 0);
}

#[test]
fn surround_decay_attenuates_hard_panned_channels() {
    let mut d = driver();
    d.surround_decay = 0x4000;
    assert_eq!(d.calc_channel_volume(100, 64), 100);
    assert_eq!(d.calc_channel_volume(100, 0), (100 * (40 * 0x4000 + (0x7FFF - 0x4000) * 64)) >> 21);
    assert_eq!(d.calc_channel_volume(100, 127), (100 * (-(127 - 40) * 0x4000 + (0x7FFF + 0x4000) * 64)) >> 21);
}

#[test]
fn commands_decode_their_arguments() {
    assert_eq!(
        decode_cmd(0x0, &[3, 0x0220_0000, 0x10, 0x0230_0000]),
        SoundCmd::StartSequenceNow { seq_id: 3, notedata: 0x0220_0000, noteoffset: 0x10, sbnk: 0x0230_0000 }
    );
    assert_eq!(decode_cmd(0x6, &[1, 0x18, 0x78, 0x2]), SoundCmd::SequenceParam { seq_id: 1, key: 0x218, val: 0x78 });
    assert_eq!(
        decode_cmd(0x7, &[0x0100_0005, 0x3, 0x08, 0x40]),
        SoundCmd::TrackParam { seq_id: 5, trackmask: 0x3, key: 0x108, val: 0x40 }
    );
    assert_eq!(
        decode_cmd(0xE, &[0x1234_0005, 0xFFFF_FFF0, 0xC5AB_CDEF, 0x0D7F_0010]),
        SoundCmd::SetupWave {
            id: 5,
            srcaddr: 0x07FF_FFF0,
            format: 1,
            repeat: 3,
            loop_pos: 0x10,
            len: 0x2B_CDEF,
            vol: 0x45,
            vol_div: 2,
            freq: 0x1234,
            pan: 0x7F,
        }
    );
    assert_eq!(
        decode_cmd(0xF, &[9, 0x2FF, 0x12_3456, 5]),
        SoundCmd::SetupPsg { id: 9, duty: 5, vol: 0x7F, vol_div: 2, freq: 0x1234, pan: 0x56 }
    );
    // Capture: bit 31 picks the unit, bit 29 clear sets bit 2.
    assert_eq!(decode_cmd(0x11, &[0x0230_0000, 0x1_0040, 0xC800_0000, 0]), SoundCmd::SetupCapture {
        num: 1,
        cnt: 0x8 | 0x4 | 0x1,
        dst: 0x0230_0000,
        len: 0x40,
    });
    assert_eq!(decode_cmd(0x11, &[0, 0, 0x3000_0000, 0]), SoundCmd::SetupCapture { num: 0, cnt: 0x2, dst: 0, len: 0 });
    assert_eq!(decode_cmd(0x18, &[0xFFFF_FFFF, 0, 0, 0]), SoundCmd::MasterPan { pan: -1 });
    assert_eq!(decode_cmd(0xD, &[1, 2, 3, 4]), SoundCmd::StopHardware { chan_mask: 1, cap_mask: 2, alarm_mask: 3, hold: true });
    assert_eq!(decode_cmd(0x1D, &[0x0270_0000, 0, 0, 0]), SoundCmd::SharedMemory { addr: 0x0270_0000 });
    assert_eq!(decode_cmd(0x1A, &[0, 0, 0, 0]), SoundCmd::Ignored);
    assert_eq!(decode_cmd(0x40, &[0, 0, 0, 0]), SoundCmd::Ignored);
}

#[test]
fn games_renumber_their_commands() {
    let d = driver();
    assert_eq!(d.translate_cmd(5), 5);
    let mut d = SoundNitro::new();
    d.reset(b"ACVE");
    assert_eq!(d.translate_cmd(1), 1);
    assert_eq!(d.translate_cmd(5), 7);
    let mut d = SoundNitro::new();
    d.reset(b"ASME");
    assert_eq!(d.translate_cmd(2), 0x4);
    assert_eq!(d.translate_cmd(26), 0x21);
    assert_eq!(d.translate_cmd(29), 0x20);
}

#[test]
fn starting_a_sequence_sets_its_flag() {
    let mut d = driver();
    d.sequences[4].status_flags = 1;
    d.start_sequence(4);
    assert_eq!(d.sequences[4].status_flags, 3);
}

#[test]
fn commands_apply_to_the_driver_records() {
    let mut d = driver();
    let r = d.apply_cmd(decode_cmd(0x6, &[2, 0x18, 0x99, 0x2]));
    assert_eq!(d.sequences[2].tempo, 0x99);
    assert_eq!(r.alarm_schedule, vec![]);
    assert!(!r.clear_active);

    d.apply_cmd(decode_cmd(0x1D, &[0x0270_0000, 0, 0, 0]));
    assert_eq!(d.shared_mem, 0x0270_0000);
    d.apply_cmd(decode_cmd(0x16, &[0x100, 0, 0, 0]));
    assert_eq!(d.surround_decay, 0x100);
    d.apply_cmd(decode_cmd(0x18, &[0xFFFF_FFFF, 0, 0, 0]));
    assert_eq!(d.master_pan, -1);

    d.apply_cmd(decode_cmd(0x12, &[3, 7, 9, 0x42]));
    let r = d.apply_cmd(decode_cmd(0xC, &[0, 0, 0b1000, 0]));
    assert_eq!(r.alarm_schedule, vec![(3u16, 7 * 64)]);
    assert!(d.alarms[3].active);
    // The hardware part is left to the caller.
    assert_eq!(r.cmd, SoundCmd::StartHardware { chan_mask: 0, cap_mask: 0, alarm_mask: 0b1000 });
    d.apply_cmd(decode_cmd(0xD, &[0, 0, 0b1000, 0]));
    assert!(!d.alarms[3].active);

    // Stopping a playing sequence frees its tracks and asks for its active
    // bit to be cleared.
    let t = d.allocate_free_track().unwrap();
    d.sequences[1].tracks = [NO_TRACK; 16];
    d.sequences[1].tracks[0] = t;
    d.sequences[1].status_flags = 1;
    let r = d.apply_cmd(decode_cmd(0x1, &[1, 0, 0, 0]));
    assert!(r.clear_active);
    assert_eq!(d.sequences[1].status_flags, 0);
    assert_eq!(d.tracks[t].status_flags & 1, 0);
    let r = d.apply_cmd(decode_cmd(0x1, &[1, 0, 0, 0]));
    assert!(!r.clear_active);
    d.apply_cmd(decode_cmd(0x3, &[1, 0, 0, 0]));
    assert_eq!(d.sequences[1].status_flags, 2);
}

#[test]
fn preparing_a_sequence_takes_free_tracks() {
    let mut d = driver();
    d.tracks[0].status_flags = 1;
    let r = d.prepare_sequence(5, 0x0220_0000, 0x10, 0x0230_0000, &[0x90, 0, 0]);
    assert_eq!(r, SeqPrepared { seqdata: None, set_active: false });
    let q = d.sequences[5];
    assert_eq!(q.tracks[0], 1);
    assert_eq!(&q.tracks[1..], &[NO_TRACK; 15]);
    assert_eq!(q.status_flags, 1);
    assert_eq!(q.tempo, 0x78);
    assert_eq!(q.tick_counter, 240);
    assert_eq!(q.volume, 127);
    assert_eq!(q.pan, 64);
    assert_eq!(q.sbnk_addr, 0x0230_0000);
    let t = d.tracks[1];
    assert_eq!(t.status_flags & 1, 1);
    assert_eq!(t.note_buffer, 0x0220_0000);
    assert_eq!(t.cur_note_addr, 0x0220_0010);
    assert_eq!(t.priority, 64);
    assert_eq!(t.channel_mask, 0xFFFF);

    // A multi-track header: slots 1 and 3 take the next free tracks.
    d.shared_mem = 0x0270_0000;
    let r = d.prepare_sequence(6, 0x0221_0000, 0, 0, &[0xFE, 0x0A, 0x00]);
    assert_eq!(r, SeqPrepared { seqdata: Some(0x0270_0000 + 6 * 0x24), set_active: true });
    let q = d.sequences[6];
    assert_eq!(q.tracks[0], 2);
    assert_eq!(q.tracks[1], 3);
    assert_eq!(q.tracks[2], NO_TRACK);
    assert_eq!(q.tracks[3], 4);
    assert_eq!(d.tracks[2].cur_note_addr, 0x0221_0003);
    assert_eq!(d.tracks[3].cur_note_addr, 0);

    // Preparing a playing sequence again frees its tracks first.
    let r = d.prepare_sequence(6, 0x0222_0000, 0, 0, &[0x90, 0, 0]);
    assert!(r.set_active);
    assert_eq!(d.sequences[6].tracks[0], 2);
    assert_eq!(d.sequences[6].tracks[1], NO_TRACK);
    assert_eq!(d.tracks[3].status_flags & 1, 0);
    assert_eq!(d.tracks[4].status_flags & 1, 0);
}

#[test]
fn instrument_notes_restart_the_envelope() {
    let mut d = driver();
    d.channels[4].status_flags = 0x80;
    d.channels[4].base_volume = 5;
    d.channels[4].vol_ramp_phase = 2;
    d.channels[4].modulation_count1 = 7;
    d.channels[4].modulation_count2 = 9;
    d.init_instrument_channel(4, 48);
    let c = &d.channels[4];
    assert_eq!(c.base_volume, -92544);
    assert_eq!(c.vol_ramp_phase, 0);
    assert_eq!(c.note_length, 48);
    assert_eq!(c.modulation_count1, 0);
    assert_eq!(c.modulation_count2, 0);
    assert_eq!(c.status_flags, 0x83);
}

#[test]
fn note_parameters_live_in_the_shared_block() {
    let mut d = driver();
    assert_eq!(d.get_note_param_addr(2, 3), 0);
    d.shared_mem = 0x0200_0000;
    // Per-sequence parameters: 0x24 bytes per sequence id, from 0x20.
    assert_eq!(d.get_note_param_addr(2, 3), 0x0200_0000 + 0x20 + 2 * 0x24 + 6);
    // Global parameters follow at 0x260.
    assert_eq!(d.get_note_param_addr(2, 0x12), 0x0200_0000 + 0x260 + 4);
}

fn psg_record() -> [u8; 16] {
    // kind 2, duty 3, note 60, attack 0x7F, decay 0x7E, sustain 100, release 0x7D, pan 64
    [2, 0, 3, 0, 0, 0, 60, 0x7F, 0x7E, 100, 0x7D, 64, 0, 0, 0, 0]
}

#[test]
fn psg_instruments_need_a_psg_channel() {
    let mut d = driver();
    assert!(!d.setup_instrument(2, 60, 127, 30, &psg_record(), None));
    assert_eq!(d.channels[2].status_flags, 0);
    assert!(d.setup_instrument(9, 61, 100, 30, &psg_record(), None));
    let c = &d.channels[9];
    assert_eq!(c.typ, 1);
    assert_eq!(c.data_addr, 3);
    assert_eq!(c.swav_frequency, 0x1F46);
    assert_eq!(c.freq_base2, 61);
    assert_eq!(c.freq_base1, 60);
    assert_eq!(c.vol_base2, 100);
    assert_eq!(c.attack_rate, 0);
    assert_eq!(c.decay_rate, 0x3C00);
    assert_eq!(c.sustain_rate, 100);
    assert_eq!(c.release_rate, 0x1E00);
    assert_eq!(c.pan_base2, 0);
    assert_eq!(c.note_length, 30);
    assert_eq!(c.status_flags & 3, 3);
    assert_eq!(c.base_volume, -92544);
}

#[test]
fn noise_instruments_and_endless_notes() {
    let mut d = driver();
    let mut rec = psg_record();
    rec[0] = 3;
    rec[0x0A] = 0xFF;
    assert!(!d.setup_instrument(13, 60, 127, 30, &rec, None));
    assert!(d.setup_instrument(14, 60, 127, 30, &rec, None));
    assert_eq!(d.channels[14].typ, 2);
    assert_eq!(d.channels[14].note_length, -1);
    assert_eq!(d.channels[14].release_rate, 1);
    rec[0] = 5;
    assert!(!d.setup_instrument(15, 60, 127, 30, &rec, None));
}

#[test]
fn wave_instruments_take_their_sample_header() {
    let mut d = driver();
    let mut rec = psg_record();
    rec[0] = 4;
    rec[2] = 0x00;
    rec[3] = 0x10;
    rec[4] = 0x30;
    rec[5] = 0x02;
    let addr = instrument_wave_addr(&rec);
    assert_eq!(addr, 0x0230_1000);
    let header = WaveHeader { addr, data_format: 1, repeat: 1, sample_rate: 22050, swav_frequency: 0x2F8, loop_pos: 4, length: 100 };
    assert!(!d.setup_instrument(3, 60, 127, 30, &rec, None));
    assert!(!d.setup_instrument(3, 60, 127, 30, &rec, Some(WaveHeader { addr: 0x0300_0000, ..header })));
    assert!(d.setup_instrument(3, 60, 127, 30, &rec, Some(header)));
    let c = &d.channels[3];
    assert_eq!(c.typ, 0);
    assert_eq!(c.data_format, 1);
    assert_eq!(c.sample_rate, 22050);
    assert_eq!(c.swav_frequency, 0x2F8);
    assert_eq!(c.loop_pos, 4);
    assert_eq!(c.length, 100);
    assert_eq!(c.data_addr, 0x0230_100C);
}

#[test]
fn archive_entries_resolve_to_wave_addresses() {
    assert_eq!(archive_wave_addr(0, 4, 0, 0x40), None);
    assert_eq!(archive_wave_addr(0x0300_0000, 4, 0, 0x40), None);
    assert_eq!(archive_wave_addr(0x0220_0000, 4, 4, 0x40), None);
    assert_eq!(archive_wave_addr(0x0220_0000, 4, 1, 0), None);
    assert_eq!(archive_wave_addr(0x0220_0000, 4, 1, 0x40), Some(0x0220_0040));
    assert_eq!(archive_wave_addr(0x0220_0000, 4, 1, 0x0210_0000), Some(0x0210_0000));
}

fn op(code: u8, arg: u32) -> NoteOp {
    NoteOp { op: code, cond: true, arg, extra: 0, speed: 100, next_addr: 0x0210_0010 }
}

#[test]
fn notes_key_on_and_wait() {
    let mut d = driver();
    d.tracks[0].transpose = 2;
    d.tracks[0].track_unk14 = 50;
    d.tracks[0].status_flags = 0x02;
    let a = d.exec_note_op(0, 0, true, op(60, 48));
    assert_eq!(a, TrackAction::KeyOn { tune: 62, speed: 100, len: 48, prev_note: 50 });
    assert_eq!(d.tracks[0].track_unk14, 62);
    assert_eq!(d.tracks[0].rest_counter, 48);
    assert_eq!(d.tracks[0].cur_note_addr, 0x0210_0010);
    // Out of range keys are clamped; a note with no length holds the track.
    d.tracks[0].transpose = 100;
    let a = d.exec_note_op(0, 0, true, op(60, 0));
    assert_eq!(a, TrackAction::KeyOn { tune: 127, speed: 100, len: -1, prev_note: 62 });
    assert_eq!(d.tracks[0].status_flags & 0x10, 0x10);
    // A muted track (flag 2) or a tick that does not play keys nothing on.
    d.tracks[0].status_flags = 0x04;
    assert_eq!(d.exec_note_op(0, 0, true, op(60, 5)), TrackAction::Done);
    d.tracks[0].status_flags = 0;
    assert_eq!(d.exec_note_op(0, 0, false, op(60, 5)), TrackAction::Done);
    // A failed condition only moves on.
    let mut skipped = op(0xC1, 90);
    skipped.cond = false;
    d.exec_note_op(0, 0, true, skipped);
    assert_ne!(d.tracks[0].volume, 90);
}

#[test]
fn note_stream_control_flow() {
    let mut d = driver();
    d.tracks[0].note_buffer = 0x0220_0000;
    d.exec_note_op(0, 0, true, op(0x94, 0x100));
    assert_eq!(d.tracks[0].cur_note_addr, 0x0220_0100);
    d.exec_note_op(0, 0, true, op(0x95, 0x200));
    assert_eq!(d.tracks[0].cur_note_addr, 0x0220_0200);
    assert_eq!(d.tracks[0].loop_level, 1);
    assert_eq!(d.tracks[0].loop_addr[0], 0x0210_0010);
    d.exec_note_op(0, 0, true, op(0xFD, 0));
    assert_eq!(d.tracks[0].cur_note_addr, 0x0210_0010);
    assert_eq!(d.tracks[0].loop_level, 0);
    // A loop of two passes comes back once.
    let mut start = op(0xD4, 2);
    start.next_addr = 0x0210_0040;
    d.exec_note_op(0, 0, true, start);
    d.exec_note_op(0, 0, true, op(0xFC, 0));
    assert_eq!(d.tracks[0].cur_note_addr, 0x0210_0040);
    assert_eq!(d.tracks[0].loop_count[0], 1);
    d.exec_note_op(0, 0, true, op(0xFC, 0));
    assert_eq!(d.tracks[0].cur_note_addr, 0x0210_0010);
    assert_eq!(d.tracks[0].loop_level, 0);
    assert_eq!(d.exec_note_op(0, 0, true, op(0xFF, 0)), TrackAction::End);
    assert_eq!(d.exec_note_op(0, 0, true, op(0x80, 7)), TrackAction::Done);
    assert_eq!(d.tracks[0].rest_counter, 7);
}

#[test]
fn note_stream_parameters() {
    let mut d = driver();
    d.exec_note_op(0, 3, true, op(0xC0, 80));
    assert_eq!(d.tracks[0].pan, 16);
    d.exec_note_op(0, 3, true, op(0xC2, 99));
    assert_eq!(d.sequences[3].volume, 99);
    d.exec_note_op(0, 3, true, op(0xE1, 0x78));
    assert_eq!(d.sequences[3].tempo, 0x78);
    d.exec_note_op(0, 3, true, op(0xC7, 1));
    assert_eq!(d.tracks[0].status_flags & 2, 2);
    d.exec_note_op(0, 3, true, op(0xE3, 0xFFFF_FFF0));
    assert_eq!(d.tracks[0].sweep_pitch, -16);
    assert_eq!(d.exec_note_op(0, 3, true, op(0xC8, 1)), TrackAction::StopTrack { track_id: 0 });
    assert_eq!(d.tracks[0].status_flags & 8, 8);
}

#[test]
fn opening_a_track_points_it_at_its_notes() {
    let mut d = driver();
    d.sequences[0].tracks[2] = 5;
    d.tracks[0].note_buffer = 0x0220_0000;
    let mut open = op(0x93, 0x30);
    open.extra = 2;
    assert_eq!(d.exec_note_op(0, 0, true, open), TrackAction::StopTrack { track_id: 5 });
    assert_eq!(d.tracks[5].note_buffer, 0x0220_0000);
    assert_eq!(d.tracks[5].cur_note_addr, 0x0220_0030);
    open.extra = 3;
    assert_eq!(d.exec_note_op(0, 0, true, open), TrackAction::Done);
}

#[test]
fn variable_instructions() {
    let mut d = driver();
    let mut v = op(0xB0, 0xFFFF);
    v.extra = 0x11;
    assert_eq!(d.exec_note_op(0, 0, true, v), TrackAction::Done);
    d.shared_mem = 0x0200_0000;
    assert_eq!(d.exec_note_op(0, 0, true, v), TrackAction::VarWrite { addr: 0x0200_0262, value: 0xFFFF });
    v.op = 0xB1;
    assert_eq!(d.exec_note_op(0, 0, true, v), TrackAction::VarUpdate { op: 0xB1, addr: 0x0200_0262, param: -1 });
    v.op = 0xB9;
    assert_eq!(d.exec_note_op(0, 0, true, v), TrackAction::VarTest { op: 0xB9, addr: 0x0200_0262, param: -1 });
    v.op = 0xB6;
    v.arg = 0;
    let before = d.counter;
    assert_eq!(d.exec_note_op(0, 0, true, v), TrackAction::VarWrite { addr: 0x0200_0262, value: 0 });
    assert_ne!(d.counter, before);
    assert_eq!(var_update_value(0xB1, 5, -7), (-2i16) as u16);
    assert_eq!(var_update_value(0xB3, 300, 300), 300i16.wrapping_mul(300) as u16);
    assert_eq!(var_update_value(0xB4, -7, 2), (-3i16) as u16);
    assert_eq!(var_update_value(0xB4, i16::MIN, -1), i16::MIN as u16);
    assert_eq!(var_update_value(0xB5, 3, 2), 12);
    assert_eq!(var_update_value(0xB5, -8, -2), (-2i16) as u16);
    assert_eq!(var_update_value(0xB5, -8, -20), 0xFFFF);
    assert!(var_test_holds(0xB9, 4, 4));
    assert!(!var_test_holds(0xBA, 4, 4));
    assert!(var_test_holds(0xBD, 4, 5));
    d.set_track_cond(0, true);
    assert_eq!(d.tracks[0].status_flags & 0x40, 0x40);
    d.set_track_cond(0, false);
    assert_eq!(d.tracks[0].status_flags & 0x40, 0);
}

#[test]
fn a_tick_counts_rests_and_channels_down() {
    let mut d = driver();
    d.tracks[0].rest_counter = 2;
    assert!(!d.begin_track_run(0));
    assert_eq!(d.tracks[0].rest_counter, 1);
    assert!(d.begin_track_run(0));
    assert_eq!(d.tracks[0].rest_counter, 0);
    d.tracks[0].status_flags = 0x10;
    d.tracks[0].chan_list = Some(2);
    assert!(!d.begin_track_run(0));
    d.channels[2].note_length = 3;
    d.channels[2].freq_ramp_len = 5;
    d.tick_track_channels(0);
    assert_eq!(d.channels[2].note_length, 2);
    assert_eq!(d.channels[2].freq_ramp_pos, 1);
    d.tracks[0].chan_list = None;
    assert!(d.begin_track_run(0));
    assert_eq!(d.tracks[0].status_flags & 0x10, 0);
}

#[test]
fn sequences_count_ticks_at_their_tempo() {
    let mut d = driver();
    d.sequences[1].tick_counter = 500;
    assert_eq!(d.sequence_ticks(1), 2);
    assert_eq!(d.sequences[1].tick_counter, 20);
    d.sequences[1].tempo = 120;
    d.sequences[1].seq_unk1a = 256;
    d.advance_tempo(1);
    assert_eq!(d.sequences[1].tick_counter, 140);
    d.sequences[0].status_flags = 1;
    d.sequences[3].status_flags = 3;
    assert_eq!(d.active_sequence_mask(), 0b1001);
}

#[test]
fn keyed_notes_take_the_track_envelope_and_sweep() {
    assert_eq!(instrument_channels(2, 0xFFFF), Some(0x3F00));
    assert_eq!(instrument_channels(3, 0x4000), Some(0x4000));
    assert_eq!(instrument_channels(4, 0x00F0), Some(0x00F0));
    assert_eq!(instrument_channels(5, 0xFFFF), None);
    let mut d = driver();
    d.tracks[0].attack_rate = 0xFF;
    d.tracks[0].decay_rate = 0x7E;
    d.tracks[0].sustain_rate = 0xFF;
    d.tracks[0].release_rate = 0xFF;
    d.tracks[0].sweep_pitch = 10;
    d.tracks[0].track_unk14 = 62;
    d.tracks[0].status_flags = 0x20;
    d.tracks[0].portamento_time = 0;
    d.channels[3].status_flags = 0x05;
    d.channels[3].freq_ramp_pos = 9;
    d.key_on_channel(0, 3, 60, 30);
    let c = d.channels[3];
    assert_eq!(c.decay_rate, 0x3C00);
    assert_eq!(c.freq_ramp_target, 10 + 2 * 64);
    assert_eq!(c.freq_ramp_len, 30);
    assert_eq!(c.status_flags, 0x01);
    assert_eq!(c.freq_ramp_pos, 0);
    d.tracks[0].portamento_time = 16;
    d.key_on_channel(0, 3, 60, 30);
    assert_eq!(d.channels[3].freq_ramp_len, 16 * 16 * 138 / 2048);
}

#[test]
fn note_bytes_decode_to_instructions() {
    // A note: key 60, velocity 100, length 0x81 0x00 = 128 (variable length).
    let n = decode_note_op(&[60, 100, 0x81, 0x00, 0xFF], false).unwrap();
    assert_eq!(n, NoteInstr { op: 60, cond: true, operand: NoteOperand::Value(128), extra: 0, speed: 100, len: 4 });
    // Conditional prefix takes the track's flag.
    let n = decode_note_op(&[0xA2, 0xC1, 90], false).unwrap();
    assert_eq!(n, NoteInstr { op: 0xC1, cond: false, operand: NoteOperand::Value(90), extra: 0, speed: 0, len: 3 });
    // Random and variable parameters.
    let n = decode_note_op(&[0xA0, 0xC1, 0xFE, 0xFF, 0x10, 0x00], true).unwrap();
    assert_eq!(n.operand, NoteOperand::Random { lo: -2, hi: 16 });
    assert_eq!(n.len, 6);
    let n = decode_note_op(&[0xA1, 0xE1, 0x11], true).unwrap();
    assert_eq!(n.operand, NoteOperand::Var { idx: 0x11 });
    // Halfword parameters, jumps and track openings.
    let n = decode_note_op(&[0xE1, 0x78, 0x01], true).unwrap();
    assert_eq!(n.operand, NoteOperand::Value(0x178));
    let n = decode_note_op(&[0x94, 0x10, 0x20, 0x03], true).unwrap();
    assert_eq!((n.operand, n.len), (NoteOperand::Value(0x032010), 4));
    let n = decode_note_op(&[0x93, 2, 0x10, 0x00, 0x00], true).unwrap();
    assert_eq!((n.extra, n.operand, n.len), (2, NoteOperand::Value(0x10), 5));
    let n = decode_note_op(&[0xB1, 0x12, 0x05, 0x00], true).unwrap();
    assert_eq!((n.extra, n.operand, n.len), (0x12, NoteOperand::Value(5), 4));
    assert_eq!(decode_note_op(&[0xFF], true).unwrap().len, 1);
    // Truncated bytes.
    assert_eq!(decode_note_op(&[60, 100, 0x81], true), None);
    assert_eq!(decode_note_op(&[], true), None);
    assert_eq!(decode_note_op(&[0x94, 0x10], true), None);
    let op = note_op_of(decode_note_op(&[0x80, 0x05], true).unwrap(), 5, 0x0210_0000);
    assert_eq!(op.next_addr, 0x0210_0002);
    assert_eq!(var_param(0xFFFE), (-2i32) as u32);
}

#[test]
fn random_parameters_span_their_bounds() {
    let mut d = driver();
    d.counter = 0;
    let r = d.random_note_param(-2, 16) as i32;
    let cnt = (0x3C6EF35Fu32 >> 16) as i32;
    assert_eq!(r, -2 + ((19 * cnt) >> 16));
    assert!((-2..=16).contains(&r));
}
