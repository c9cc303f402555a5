[package]
name = "atat_blue_pill"
version = "0.1.0"
edition = "2021"
publish = false

[dependencies]
atat = "=0.11.1"
heapless = "=0.7.17"
embedded-hal = "=1.0.0-alpha.4"
nb = "=1.1.0"
no-std-net = "=0.5.0"
defmt = "=0.2.3"
cortex-m = "=0.6.7"
cortex-m-rt = "=0.6.15"
stm32f1xx-hal = { version = "=0.7.0", features = ["stm32f103", "rt", "medium"] }
