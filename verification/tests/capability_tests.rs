use slimproto::{Capabilities, Capability};

#[test]
fn single() {
    let mut c = Capabilities::default();
    c.add(Capability::Mp3);
    assert_eq!(c.to_text(), "Model=squeezelite,Modelname=SqueezeLite,AccuratePlayPoints=1,HasDigitalOut=1,HasPreAmp=1,HasDisableDac=1,mp3");
}

#[test]
fn list_with_values() {
    let mut c = Capabilities::default();
    c.add(Capability::Mp3);
    c.add(Capability::Maxsamplerate(9600));
    c.add(Capability::Ogg);
    assert_eq!(c.to_text(), "Model=squeezelite,Modelname=SqueezeLite,AccuratePlayPoints=1,HasDigitalOut=1,HasPreAmp=1,HasDisableDac=1,mp3,MaxSampleRate=9600,ogg");
}

#[test]
fn name() {
    let mut c = Capabilities::default();
    c.add_name("Testing");
    assert_eq!(c.to_text(), "Model=squeezelite,AccuratePlayPoints=1,HasDigitalOut=1,HasPreAmp=1,HasDisableDac=1,Modelname=Testing");
}

#[test]
fn add_same_kind_twice_keeps_one() {
    let mut c = Capabilities::new();
    c.add(Capability::Maxsamplerate(44100));
    c.add(Capability::Mp3);
    c.add(Capability::Maxsamplerate(96000));
    assert_eq!(c.to_text(), "mp3,MaxSampleRate=96000");
}

#[test]
fn valued_capability_text() {
    assert_eq!(Capability::Maxsamplerate(0).to_text(), "MaxSampleRate=0");
    assert_eq!(Capability::Firmware("v1.2".to_owned()).to_text(), "Firmware=v1.2");
    assert_eq!(Capability::Syncgroupid("g7".to_owned()).to_text(), "SyncgroupID=g7");
    assert_eq!(Capability::Balance.to_text(), "Balance=1");
}

#[test]
fn same_kind_ignores_payload() {
    assert!(Capability::Model("a".to_owned()) == Capability::Model("b".to_owned()));
    assert!(Capability::Mp3 != Capability::Ogg);
}
