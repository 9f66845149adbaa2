use jmap_dumper::files::{input_format, output_format, InputFormat, OutputFormat};
use jmap_dumper::text::{ends_with, obj_name, split_once, strip_prefix};

#[test]
fn object_names() {
    assert_eq!(obj_name("/Script/Engine.Actor"), "Actor");
    assert_eq!(obj_name("/Script/Engine.Actor:RootComponent"), "RootComponent");
    assert_eq!(obj_name("/Game/Maps/Main"), "Main");
    assert_eq!(obj_name("Actor"), "Actor");
    assert_eq!(obj_name("/Script/Engine."), "");
    assert_eq!(obj_name(""), "");
    assert_eq!(obj_name("/Script/Über.Straße"), "Straße");
}

#[test]
fn text_helpers() {
    assert!(ends_with("dump.jmap.gz", ".gz"));
    assert!(!ends_with("gz", ".gz"));
    assert_eq!(strip_prefix("0xff", "0x"), Some("ff"));
    assert_eq!(strip_prefix("ff", "0x"), None);
    assert_eq!(split_once("5.4.1", '.'), Some(("5", "4.1")));
    assert_eq!(split_once("54", '.'), None);
    assert_eq!(split_once(".", '.'), Some(("", "")));
}

#[test]
fn output_formats() {
    assert_eq!(output_format("out.jmap"), Some(OutputFormat::Jmap));
    assert_eq!(output_format("out.jmap.gz"), Some(OutputFormat::JmapGz));
    assert_eq!(output_format("out.usmap"), Some(OutputFormat::Usmap));
    assert_eq!(output_format("out.h"), Some(OutputFormat::Header));
    assert_eq!(output_format("out.hpp"), Some(OutputFormat::Header));
    assert_eq!(output_format("out.json"), None);
    assert_eq!(output_format("out.gz"), None);
    assert_eq!(output_format(""), None);
}

#[test]
fn input_formats() {
    assert_eq!(input_format("in.jmap"), Some(InputFormat::Jmap));
    assert_eq!(input_format("in.jmap.gz"), Some(InputFormat::JmapGz));
    assert_eq!(input_format("in.usmap"), None);
    assert_eq!(input_format("in.h"), None);
}

#[test]
fn written_dumps_read_back() {
    for name in ["a.jmap", "a.jmap.gz", "a.usmap", "a.hpp", "jmap"] {
        let out = output_format(name);
        let inp = input_format(name);
        assert_eq!(out == Some(OutputFormat::Jmap), inp == Some(InputFormat::Jmap));
        assert_eq!(out == Some(OutputFormat::JmapGz), inp == Some(InputFormat::JmapGz));
    }
}

#[test]
fn short_name_of_short_name_is_itself() {
    for path in ["/Script/Engine.Actor", "/Script/Engine.Actor:Root", "Actor", "a/", ""] {
        let short = obj_name(path);
        assert_eq!(obj_name(short), short);
    }
}
